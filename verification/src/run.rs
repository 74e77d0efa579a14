//! The loader's policy: scanning the environment, choosing the real
//! loader and the library-path edit, and finishing the handoff.
//!
//! This is the logic the program entry runs after self-relocation: it is
//! split into a phase before the loader file is opened and mapped
//! ([`prepare_env`]), and a phase after ([`finish_handoff`]); the file
//! work between them is the runtime's.

use vstd::prelude::*;

use crate::arch::{
    ld_library_path_env, nix_ld_env, nix_ld_library_path_env, nix_ld_library_path_system_env,
    nix_ld_log_env, nix_ld_system_env, spec_ld_library_path, spec_nix_ld,
    spec_nix_ld_library_path, spec_nix_ld_library_path_system, spec_nix_ld_log,
    spec_nix_ld_system, TrampolineContext,
};
use crate::args::{spec_parse_env, Args, EnvEdit, StartContext, StringArena, VarHandle};
use crate::cstr::{bytes_of, str_bytes, bytes_eq};
use crate::sys::Fatal;

verus! {

/// The name part of an environment string, or nothing's name if it does
/// not parse.
pub open spec fn env_name_of(s: Seq<u8>) -> Seq<u8> {
    match spec_parse_env(s) {
        Some(nv) => nv.0,
        None => Seq::empty(),
    }
}

/// The string in environment slot `i`.
pub open spec fn env_str(args: &Args, arena: &StringArena, i: int) -> Seq<u8> {
    arena.str_at(args.stack@[args.env_start() + i])
}

/// The environment strings, in slot order.
pub open spec fn env_strs(args: &Args, arena: &StringArena) -> Seq<Seq<u8>> {
    Seq::new(args.envc as nat, |i: int| env_str(args, arena, i))
}

/// How far one walk of the environment gets: slots up to the first
/// string with no `=` in it.
pub open spec fn spec_scan_limit(envs: Seq<Seq<u8>>, i: int) -> int
    decreases envs.len() - i,
{
    if i < 0 || i >= envs.len() {
        envs.len() as int
    } else if spec_parse_env(envs[i]) is None {
        i
    } else {
        spec_scan_limit(envs, i + 1)
    }
}

/// Which slot a variable's handle ends up pointing at: the last slot
/// named `sys` wins outright; failing that, the first slot named `gen`.
pub open spec fn spec_pick(envs: Seq<Seq<u8>>, sys: Seq<u8>, gen: Seq<u8>) -> Option<int>
    decreases envs.len(),
{
    if envs.len() == 0 {
        None
    } else {
        let prev = spec_pick(envs.drop_last(), sys, gen);
        let nm = env_name_of(envs.last());
        if nm == sys {
            Some(envs.len() - 1)
        } else if nm == gen {
            match prev {
                Some(i) => Some(i),
                None => Some(envs.len() - 1),
            }
        } else {
            prev
        }
    }
}

/// A picked handle points at the picked slot and carries its parse.
pub open spec fn picked_ok(
    h: Option<VarHandle>,
    pick: Option<int>,
    args: &Args,
    arena: &StringArena,
) -> bool {
    match (h, pick) {
        (Some(vh), Some(i)) => {
            &&& vh.slot == args.env_start() + i
            &&& vh.wf(args, arena)
            &&& spec_parse_env(env_str(args, arena, i)) == Some((vh.name@, vh.value_c@))
        },
        (None, None) => true,
        _ => false,
    }
}

/// The handles the scan keeps: the loader-path variable, the extra
/// library-path variable, and the existing search path.
pub struct Context {
    pub nix_ld: Option<VarHandle>,
    pub nix_ld_library_path: Option<VarHandle>,
    pub ld_library_path: Option<VarHandle>,
}

/// Scans the environment once, classifying each slot.  System-specific
/// variables override the generic ones; the log-level value is captured
/// as bytes.  Returns nothing if the environment was already iterated.
pub fn scan_env(args: &mut Args, arena: &StringArena) -> (r: Option<(Context, Option<Vec<u8>>)>)
    requires
        old(args).wf(arena),
    ensures
        final(args).wf(arena),
        final(args).stack == old(args).stack,
        final(args).base == old(args).base,
        final(args).argc == old(args).argc,
        final(args).envc == old(args).envc,
        final(args).auxv == old(args).auxv,
        final(args).extra_env == old(args).extra_env,
        final(args).env_iterated == true,
        old(args).env_iterated ==> r is None,
        !old(args).env_iterated ==> (r matches Some(cl) && ({
            let envs = env_strs(old(args), arena);
            let lim = spec_scan_limit(envs, 0);
            let pref = envs.take(lim);
            &&& picked_ok(
                cl.0.nix_ld,
                spec_pick(pref, spec_nix_ld_system(), spec_nix_ld()),
                old(args),
                arena,
            )
            &&& picked_ok(
                cl.0.nix_ld_library_path,
                spec_pick(pref, spec_nix_ld_library_path_system(), spec_nix_ld_library_path()),
                old(args),
                arena,
            )
            &&& picked_ok(
                cl.0.ld_library_path,
                spec_pick(pref, spec_ld_library_path(), spec_ld_library_path()),
                old(args),
                arena,
            )
            &&& (match spec_pick(pref, spec_nix_ld_log(), spec_nix_ld_log()) {
                Some(i) => cl.1 matches Some(v) && v@ == env_name_value(envs[i]),
                None => cl.1 is None,
            })
        })),
{
    let ghost envs = env_strs(old(args), arena);
    let it0 = args.iter_env();
    let mut it = match it0 {
        None => { return None },
        Some(it) => it,
    };
    let name_sys = nix_ld_system_env();
    let name_gen = nix_ld_env();
    let name_lp_sys = nix_ld_library_path_system_env();
    let name_lp_gen = nix_ld_library_path_env();
    let name_ld = ld_library_path_env();
    let name_log = nix_ld_log_env();
    let mut nix_ld: Option<VarHandle> = None;
    let mut nix_ld_library_path: Option<VarHandle> = None;
    let mut ld_library_path: Option<VarHandle> = None;
    let mut log_level: Option<Vec<u8>> = None;
    proof {
        crate::args::lemma_wf_same_parts(old(args), args, arena);
        assert(env_strs(args, arena) =~= env_strs(old(args), arena));
    }
    loop
        invariant_except_break
            it.ended == false,
        invariant
            args.wf(arena),
            args.stack == old(args).stack,
            args.base == old(args).base,
            args.argc == old(args).argc,
            args.envc == old(args).envc,
            args.auxv == old(args).auxv,
            args.extra_env == old(args).extra_env,
            args.env_iterated == true,
            envs == env_strs(args, arena),
            envs == env_strs(old(args), arena),
            it.index <= args.envc,
            forall|j: int| 0 <= j < it.index ==> spec_parse_env(#[trigger] envs[j]) is Some,
            name_sys@ == spec_nix_ld_system(),
            name_gen@ == spec_nix_ld(),
            name_lp_sys@ == spec_nix_ld_library_path_system(),
            name_lp_gen@ == spec_nix_ld_library_path(),
            name_ld@ == spec_ld_library_path(),
            name_log@ == spec_nix_ld_log(),
            picked_ok(
                nix_ld,
                spec_pick(envs.take(it.index as int), spec_nix_ld_system(), spec_nix_ld()),
                args,
                arena,
            ),
            picked_ok(
                nix_ld_library_path,
                spec_pick(
                    envs.take(it.index as int),
                    spec_nix_ld_library_path_system(),
                    spec_nix_ld_library_path(),
                ),
                args,
                arena,
            ),
            picked_ok(
                ld_library_path,
                spec_pick(envs.take(it.index as int), spec_ld_library_path(),
                spec_ld_library_path()),
                args,
                arena,
            ),
            (match spec_pick(envs.take(it.index as int), spec_nix_ld_log(), spec_nix_ld_log()) {
                Some(i) => log_level matches Some(v) && v@ == env_name_value(envs[i]),
                None => log_level is None,
            }),
        ensures
            args.wf(arena),
            args.stack == old(args).stack,
            args.base == old(args).base,
            args.argc == old(args).argc,
            args.envc == old(args).envc,
            args.auxv == old(args).auxv,
            args.extra_env == old(args).extra_env,
            args.env_iterated == true,
            ({
                let lim = spec_scan_limit(envs, 0);
                let pref = envs.take(lim);
                &&& picked_ok(
                    nix_ld,
                    spec_pick(pref, spec_nix_ld_system(), spec_nix_ld()),
                    args,
                    arena,
                )
                &&& picked_ok(
                    nix_ld_library_path,
                    spec_pick(
                        pref,
                        spec_nix_ld_library_path_system(),
                        spec_nix_ld_library_path(),
                    ),
                    args,
                    arena,
                )
                &&& picked_ok(
                    ld_library_path,
                    spec_pick(pref, spec_ld_library_path(), spec_ld_library_path()),
                    args,
                    arena,
                )
                &&& (match spec_pick(pref, spec_nix_ld_log(), spec_nix_ld_log()) {
                    Some(i) => log_level matches Some(v) && v@ == env_name_value(envs[i]),
                    None => log_level is None,
                })
            }),
        decreases args.envc - it.index,
    {
        let ghost k = it.index as int;
        let ghost pre = envs.take(k);
        let ghost post = envs.take(k + 1);
        proof {
            crate::arch::lemma_env_names_distinct();
        }
        let env = match it.next(args, arena) {
            Some(env) => env,
            None => {
                proof {
                    lemma_scan_limit_here(envs, k);
                }
                break ;
            },
        };
        proof {
            assert(post.drop_last() =~= pre);
            assert(post.last() == envs[k]);
        }
        if bytes_eq(env.name(), &name_log) {
            let v = env.value();
            log_level = Some(v);
        } else if bytes_eq(env.name(), &name_sys) {
            nix_ld = Some(env);
        } else if bytes_eq(env.name(), &name_gen) {
            if nix_ld.is_none() {
                nix_ld = Some(env);
            }
        } else if bytes_eq(env.name(), &name_lp_sys) {
            nix_ld_library_path = Some(env);
        } else if bytes_eq(env.name(), &name_lp_gen) {
            if nix_ld_library_path.is_none() {
                nix_ld_library_path = Some(env);
            }
        } else if bytes_eq(env.name(), &name_ld) {
            ld_library_path = Some(env);
        }
    }
    Some((Context { nix_ld, nix_ld_library_path, ld_library_path }, log_level))
}

/// The compile-time default path of the real loader, NUL-terminated.
pub open spec fn spec_default_nix_ld() -> Seq<u8> {
    bytes_of("/run/current-system/sw/share/nix-ld/lib/ld.so"@) + seq![0u8]
}

pub fn default_nix_ld() -> (r: Vec<u8>)
    ensures
        r@ == spec_default_nix_ld(),
{
    proof {
        reveal_strlit("/run/current-system/sw/share/nix-ld/lib/ld.so");
    }
    let mut r = str_bytes("/run/current-system/sw/share/nix-ld/lib/ld.so");
    r.push(0u8);
    assert(r@ =~= spec_default_nix_ld());
    r
}

/// The compile-time default library search path, as value bytes.
pub open spec fn spec_default_lib_path() -> Seq<u8> {
    bytes_of("/run/current-system/sw/share/nix-ld/lib"@)
}

pub fn default_lib_path() -> (r: Vec<u8>)
    ensures
        r@ == spec_default_lib_path(),
        crate::args::valid_env_value(r@),
{
    proof {
        reveal_strlit("/run/current-system/sw/share/nix-ld/lib");
    }
    let r = str_bytes("/run/current-system/sw/share/nix-ld/lib");
    r
}

/// The string the trampoline restores when no search path existed at all:
/// an empty `LD_LIBRARY_PATH`.
pub open spec fn spec_empty_ld_path_env() -> Seq<u8> {
    bytes_of("LD_LIBRARY_PATH="@) + seq![0u8]
}

pub fn empty_ld_path_env() -> (r: Vec<u8>)
    ensures
        r@ == spec_empty_ld_path_env(),
        crate::cstr::is_cstr(r@),
{
    proof {
        reveal_strlit("LD_LIBRARY_PATH=");
    }
    let mut r = str_bytes("LD_LIBRARY_PATH=");
    r.push(0u8);
    assert(r@ =~= spec_empty_ld_path_env());
    r
}

/// The loader path to use: the value of the loader-path variable, or the
/// compile-time default when the variable is unset or empty.  The result
/// keeps its trailing NUL.
pub fn choose_loader(nix_ld: &Option<VarHandle>) -> (r: Vec<u8>)
    requires
        (match nix_ld {
            Some(h) => h.value_c@.len() >= 1,
            None => true,
        }),
    ensures
        (match nix_ld {
            None => r@ == spec_default_nix_ld(),
            Some(h) => if h.value_c@.len() <= 1 {
                r@ == spec_default_nix_ld()
            } else {
                r@ == h.value_c@
            },
        }),
{
    match nix_ld {
        None => default_nix_ld(),
        Some(h) => {
            if h.value_c.len() <= 1 {
                default_nix_ld()
            } else {
                let n = h.value_c.len();
                let r = crate::cstr::subvec(&h.value_c, 0, n);
                assert(r@ =~= h.value_c@);
                r
            }
        },
    }
}

/// How an existing search path and the extra one are joined: with a `:`
/// between them, unless the existing value is empty or already ends in
/// one.
pub open spec fn spec_append_lib_path(head: Seq<u8>, tail: Seq<u8>) -> Seq<u8> {
    if head.len() == 0 || head.last() == (':' as u8) {
        head + tail
    } else {
        head + seq![(':' as u8)] + tail
    }
}

/// The value bytes of an environment string, without the terminator.
pub open spec fn env_name_value(s: Seq<u8>) -> Seq<u8> {
    match spec_parse_env(s) {
        Some(nv) => nv.1.drop_last(),
        None => Seq::empty(),
    }
}

/// A walk that ends here has found the scan limit.
proof fn lemma_scan_limit_here(envs: Seq<Seq<u8>>, k: int)
    requires
        0 <= k <= envs.len(),
        forall|j: int| 0 <= j < k ==> spec_parse_env(#[trigger] envs[j]) is Some,
        k == envs.len() || spec_parse_env(envs[k]) is None,
    ensures
        spec_scan_limit(envs, 0) == k,
{
    lemma_scan_limit_from(envs, 0, k);
}

/// The scan limit lies within the environment.
pub proof fn lemma_scan_limit_range(envs: Seq<Seq<u8>>, i: int)
    requires
        0 <= i <= envs.len(),
    ensures
        i <= spec_scan_limit(envs, i) <= envs.len(),
    decreases envs.len() - i,
{
    if i >= envs.len() {
    } else if spec_parse_env(envs[i]) is None {
    } else {
        lemma_scan_limit_range(envs, i + 1);
    }
}

proof fn lemma_scan_limit_from(envs: Seq<Seq<u8>>, i: int, k: int)
    requires
        0 <= i <= k <= envs.len(),
        forall|j: int| 0 <= j < k ==> spec_parse_env(#[trigger] envs[j]) is Some,
        k == envs.len() || spec_parse_env(envs[k]) is None,
    ensures
        spec_scan_limit(envs, i) == k,
    decreases envs.len() - i,
{
    if i < k {
        lemma_scan_limit_from(envs, i + 1, k);
    }
}

/// Arranges the `LD_LIBRARY_PATH` the real loader will see, and returns
/// the record the trampoline needs to undo it.
///
/// With an existing `LD_LIBRARY_PATH`, the extra search path (or the
/// default) is appended to it in a fresh string.  With only the extra
/// variable set, that variable is renamed in place.  With neither, an
/// extra `LD_LIBRARY_PATH` entry is recorded for the handoff, and the
/// sentinel edit restores an empty one.
pub fn apply_lib_path_edit(
    args: &mut Args,
    arena: &mut StringArena,
    ld_library_path: Option<VarHandle>,
    nix_ld_library_path: Option<VarHandle>,
) -> (r: Result<EnvEdit, Fatal>)
    requires
        old(args).wf(old(arena)),
        old(args).extra_env is None,
        old(arena).bufs@.len() + 2 <= usize::MAX,
        (match ld_library_path {
            Some(h) => h.wf(old(args), old(arena)),
            None => true,
        }),
        (match nix_ld_library_path {
            Some(h) => h.wf(old(args), old(arena)),
            None => true,
        }),
    ensures
        final(args).wf(final(arena)),
        final(args).argc == old(args).argc,
        final(args).envc == old(args).envc,
        final(args).base == old(args).base,
        final(args).auxv == old(args).auxv,
        final(args).env_iterated == old(args).env_iterated,
        ({
            let a0 = old(args);
            let ar0 = old(arena);
            match ld_library_path {
                Some(h) => {
                    let tail = (match nix_ld_library_path {
                        Some(h2) => h2.value_c@.drop_last(),
                        None => spec_default_lib_path(),
                    });
                    let newv = spec_append_lib_path(h.value_c@.drop_last(), tail);
                    let newp = (ar0.bufs@.len() + 1) as usize;
                    &&& r == Result::<EnvEdit, Fatal>::Ok(
                        (EnvEdit {
                            entry: Some(h.slot),
                            old_string: a0.stack@[h.slot as int],
                        }),
                    )
                    &&& final(args).stack@ == a0.stack@.update(h.slot as int, newp)
                    &&& final(arena).str_at(newp) == h.name@ + seq![('=' as u8)] + newv + seq![
                        0u8,
                    ]
                    &&& final(arena).extends(ar0)
                    &&& final(args).extra_env is None
                },
                None => {
                    match nix_ld_library_path {
                        Some(h2) => {
                            &&& final(args).extra_env is None
                            &&& final(arena).str_at(final(args).stack@[h2.slot as int])
                                == spec_ld_library_path() + seq![('=' as u8)] + h2.value_c@
                            &&& (spec_ld_library_path().len() <= h2.name@.len() ==> (r
                                == Result::<EnvEdit, Fatal>::Ok(
                                (EnvEdit { entry: None, old_string: 0 }),
                            ) && final(args).stack@ == a0.stack@ && final(arena).bufs@.len()
                                == ar0.bufs@.len()))
                            &&& (spec_ld_library_path().len() > h2.name@.len() ==> (r
                                == Result::<EnvEdit, Fatal>::Ok(
                                (EnvEdit {
                                    entry: Some(h2.slot),
                                    old_string: a0.stack@[h2.slot as int],
                                }),
                            ) && final(args).stack@ == a0.stack@.update(
                                h2.slot as int,
                                (ar0.bufs@.len() + 1) as usize,
                            ) && final(arena).extends(ar0)))
                        },
                        None => {
                            let bufp = (ar0.bufs@.len() + 1) as usize;
                            let emptyp = (ar0.bufs@.len() + 2) as usize;
                            &&& r == Result::<EnvEdit, Fatal>::Ok(
                                (EnvEdit { entry: None, old_string: emptyp }),
                            )
                            &&& final(args).stack@ == a0.stack@
                            &&& final(args).extra_env == Some(bufp)
                            &&& final(arena).str_at(bufp) == spec_ld_library_path() + seq![
                                ('=' as u8),
                            ] + spec_default_lib_path() + seq![0u8]
                            &&& final(arena).str_at(emptyp) == spec_empty_ld_path_env()
                            &&& final(arena).extends(ar0)
                        },
                    }
                },
            }
        }),
{
    match ld_library_path {
        Some(h) => {
            // Append to the existing search path.
            let head = h.value();
            let tail = match &nix_ld_library_path {
                Some(h2) => h2.value(),
                None => default_lib_path(),
            };
            let mut newv = crate::cstr::subvec(&head, 0, head.len());
            let hlen = head.len();
            if !(hlen == 0 || head[hlen - 1] == ':' as u8) {
                newv.push(':' as u8);
            }
            crate::cstr::append_bytes(&mut newv, &tail);
            proof {
                let tail_s = (match nix_ld_library_path {
                    Some(h2) => h2.value_c@.drop_last(),
                    None => spec_default_lib_path(),
                });
                assert(newv@ =~= spec_append_lib_path(h.value_c@.drop_last(), tail_s));
            }
            let edit = h.edit(args, arena, None, &newv);
            Ok(edit)
        },
        None => {
            match nix_ld_library_path {
                Some(h2) => {
                    // Rename the extra variable into place.
                    let new_name = ld_library_path_env();
                    proof {
                        lemma_valid_name_ld_library_path();
                    }
                    let edit = h2.rename(args, arena, &new_name);
                    Ok(edit)
                },
                None => {
                    // Neither exists: record an extra entry with the
                    // default, restored to empty by the trampoline.
                    let name = ld_library_path_env();
                    let value = default_lib_path();
                    proof {
                        lemma_valid_name_ld_library_path();
                    }
                    match args.add_env(arena, &name, &value) {
                        Ok(_) => {},
                        Err(e) => { return Err(e) },
                    }
                    let ghost ar_mid = *arena;
                    let empty = empty_ld_path_env();
                    let emptyp = arena.new_slice_leak(empty);
                    proof {
                        crate::args::lemma_wf_arena_extends(args, &ar_mid, arena);
                    }
                    Ok(EnvEdit { entry: None, old_string: emptyp })
                },
            }
        },
    }
}

/// `LD_LIBRARY_PATH` holds no byte a name may not.
pub proof fn lemma_valid_name_ld_library_path()
    ensures
        crate::args::valid_env_name(spec_ld_library_path()),
{
    reveal_strlit("LD_LIBRARY_PATH");
}

/// Everything decided before the loader file is touched: the path to
/// open, the edit to undo at the real entry, the page size, and the raw
/// log-level request.
pub struct EnvPlan {
    pub loader_path: Vec<u8>,
    pub edit: EnvEdit,
    pub pagesz: usize,
    pub log_level: Option<Vec<u8>>,
}

/// Scans the environment, chooses the loader path, arranges the
/// `LD_LIBRARY_PATH` the loader will see, and reads the page size.
/// `AT_PAGESZ` must exist; anything else falls back to a default.
pub fn prepare_env(args: &mut Args, arena: &mut StringArena) -> (r: Result<EnvPlan, Fatal>)
    requires
        old(args).wf(old(arena)),
        old(args).env_iterated == false,
        old(args).extra_env is None,
        old(arena).bufs@.len() + 2 <= usize::MAX,
    ensures
        final(args).wf(final(arena)),
        final(args).argc == old(args).argc,
        final(args).envc == old(args).envc,
        final(args).base == old(args).base,
        final(args).auxv == old(args).auxv,
        final(args).env_iterated == true,
        r is Err <==> old(args).auxv.at_pagesz is None,
        r matches Err(e) ==> e == Fatal::NoPagesz,
        r matches Ok(plan) ==> ({
            let a0 = old(args);
            let ar0 = old(arena);
            let envs = env_strs(a0, ar0);
            let lim = spec_scan_limit(envs, 0);
            let pref = envs.take(lim);
            let ldpick = spec_pick(pref, spec_nix_ld_system(), spec_nix_ld());
            let lpick = spec_pick(pref, spec_ld_library_path(), spec_ld_library_path());
            let npick = spec_pick(
                pref,
                spec_nix_ld_library_path_system(),
                spec_nix_ld_library_path(),
            );
            let logpick = spec_pick(pref, spec_nix_ld_log(), spec_nix_ld_log());
            &&& a0.auxv.at_pagesz matches Some(en) && plan.pagesz == a0.stack@[en.pos + 1]
            &&& (match ldpick {
                None => plan.loader_path@ == spec_default_nix_ld(),
                Some(i) => (if env_name_value(envs[i]).len() == 0 {
                    plan.loader_path@ == spec_default_nix_ld()
                } else {
                    plan.loader_path@ == env_name_value(envs[i]) + seq![0u8]
                }),
            })
            &&& (match logpick {
                Some(i) => plan.log_level matches Some(v) && v@ == env_name_value(envs[i]),
                None => plan.log_level is None,
            })
            &&& (match lpick {
                Some(i) => ({
                    let head = env_name_value(envs[i]);
                    let tail = (match npick {
                        Some(j) => env_name_value(envs[j]),
                        None => spec_default_lib_path(),
                    });
                    let newv = spec_append_lib_path(head, tail);
                    let slot = a0.env_start() + i;
                    &&& plan.edit.entry == Some(slot as usize)
                    &&& plan.edit.old_string == a0.stack@[slot]
                    &&& final(args).stack@ == a0.stack@.update(
                        slot,
                        (ar0.bufs@.len() + 1) as usize,
                    )
                    &&& final(arena).str_at((ar0.bufs@.len() + 1) as usize) == env_name_of(
                        envs[i],
                    ) + seq![('=' as u8)] + newv + seq![0u8]
                    &&& final(arena).extends(ar0)
                    &&& final(args).extra_env is None
                }),
                None => (match npick {
                    Some(j) => ({
                        let slot = a0.env_start() + j;
                        &&& plan.edit == (EnvEdit { entry: None, old_string: 0 })
                        &&& final(args).stack@ == a0.stack@
                        &&& final(arena).str_at(a0.stack@[slot]) == spec_ld_library_path()
                            + seq![('=' as u8)] + env_name_value(envs[j]) + seq![0u8]
                        &&& final(args).extra_env is None
                    }),
                    None => ({
                        &&& plan.edit.entry is None
                        &&& plan.edit.old_string == ar0.bufs@.len() + 2
                        &&& final(args).stack@ == a0.stack@
                        &&& final(args).extra_env == Some(((ar0.bufs@.len() + 1) as usize))
                        &&& final(arena).str_at((ar0.bufs@.len() + 1) as usize)
                            == spec_ld_library_path() + seq![('=' as u8)]
                            + spec_default_lib_path() + seq![0u8]
                        &&& final(arena).str_at((ar0.bufs@.len() + 2) as usize)
                            == spec_empty_ld_path_env()
                        &&& final(arena).extends(ar0)
                    }),
                }),
            })
        }),
{
    let ghost a0 = *old(args);
    let ghost ar0 = *old(arena);
    let scanned = scan_env(args, arena);
    let (ctx, log_level) = match scanned {
        Some(cl) => cl,
        // The walk cannot have happened before: the caller owes us a
        // fresh environment.
        None => { return Err(Fatal::StackMismatch) },
    };
    proof {
        lemma_pick_name_len(
            env_strs(&a0, &ar0).take(spec_scan_limit(env_strs(&a0, &ar0), 0)),
            spec_nix_ld_library_path_system(),
            spec_nix_ld_library_path(),
        );
    }
    let loader_path = choose_loader(&ctx.nix_ld);
    proof {
        let envs = env_strs(&a0, &ar0);
        let lim = spec_scan_limit(envs, 0);
        let pref = envs.take(lim);
        let ldpick = spec_pick(pref, spec_nix_ld_system(), spec_nix_ld());
        match &ctx.nix_ld {
            Some(h) => {
                let i = ldpick->Some_0;
                assert(h.value_c@ =~= h.value_c@.drop_last() + seq![
                    h.value_c@[h.value_c@.len() - 1],
                ]);
                assert(env_name_value(envs[i]) == h.value_c@.drop_last());
                assert(h.value_c@.len() > 1 ==> h.value_c@ =~= env_name_value(envs[i]) + seq![
                    0u8,
                ]);
            },
            None => {},
        }
    }
    let Context { nix_ld: _, nix_ld_library_path, ld_library_path } = ctx;
    proof {
        crate::args::lemma_wf_same_parts(&a0, args, arena);
        match &ld_library_path {
            Some(h) => {
                assert(h.wf(args, arena));
            },
            None => {},
        }
        match &nix_ld_library_path {
            Some(h) => {
                assert(h.wf(args, arena));
            },
            None => {},
        }
        reveal_strlit("LD_LIBRARY_PATH");
        reveal_strlit("NIX_LD_LIBRARY_PATH");
        reveal_strlit("NIX_LD_LIBRARY_PATH_x86_64_linux");
        match &nix_ld_library_path {
            Some(h2) => {
                assert(h2.value_c@ =~= h2.value_c@.drop_last() + seq![
                    h2.value_c@[h2.value_c@.len() - 1],
                ]);
            },
            None => {},
        }
        match &ld_library_path {
            Some(h) => {
                assert(h.value_c@ =~= h.value_c@.drop_last() + seq![
                    h.value_c@[h.value_c@.len() - 1],
                ]);
            },
            None => {},
        }
    }
    let edit = match apply_lib_path_edit(args, arena, ld_library_path, nix_ld_library_path) {
        Ok(e) => e,
        Err(e) => { return Err(e) },
    };
    // The page size the loader mapping will honor.
    let pagesz_entry = match args.auxv.at_pagesz {
        Some(e) => e,
        None => { return Err(Fatal::NoPagesz) },
    };
    proof {
        crate::auxv::lemma_aux_count_facts(
            args.stack@,
            args.auxv.start as int,
            args.auxv.auxvc as int,
        );
    }
    let pagesz = pagesz_entry.value(&args.stack);
    proof {
        let envs = env_strs(&a0, &ar0);
        let lim = spec_scan_limit(envs, 0);
        let pref = envs.take(lim);
        let en = a0.auxv.at_pagesz->Some_0;
        assert(pagesz == a0.stack@[en.pos + 1]);
        let lpick = spec_pick(pref, spec_ld_library_path(), spec_ld_library_path());
        let npick = spec_pick(
            pref,
            spec_nix_ld_library_path_system(),
            spec_nix_ld_library_path(),
        );
        match (lpick, npick) {
            (None, Some(j)) => {
                let h2v = spec_parse_env(envs[j])->Some_0.1;
                reveal_strlit("LD_LIBRARY_PATH");
                reveal_strlit("NIX_LD_LIBRARY_PATH");
                reveal_strlit("NIX_LD_LIBRARY_PATH_x86_64_linux");
                lemma_pick_name_len(
                    pref,
                    spec_nix_ld_library_path_system(),
                    spec_nix_ld_library_path(),
                );
                lemma_scan_limit_range(envs, 0);
                assert(pref[j] == envs[j]);
                assert((spec_ld_library_path() + seq![('=' as u8)] + h2v)
                    =~= spec_ld_library_path() + seq![('=' as u8)] + env_name_value(envs[j])
                    + seq![0u8]);
            },
            _ => {},
        }
    }
    Ok(EnvPlan { loader_path, edit, pagesz, log_level })
}

/// A slot the pick lands on carries one of the two names it picks for.
proof fn lemma_pick_name_len(envs: Seq<Seq<u8>>, sys: Seq<u8>, gen: Seq<u8>)
    ensures
        (match spec_pick(envs, sys, gen) {
            Some(i) => 0 <= i < envs.len() && (env_name_of(envs[i]) == sys || env_name_of(
                envs[i],
            ) == gen),
            None => true,
        }),
    decreases envs.len(),
{
    if envs.len() == 0 {
    } else {
        lemma_pick_name_len(envs.drop_last(), sys, gen);
        match spec_pick(envs.drop_last(), sys, gen) {
            Some(i) => {
                assert(envs.drop_last()[i] == envs[i]);
            },
            None => {},
        }
    }
}

/// What the handoff decided: hand the stack straight to an `execve` of
/// the loader, or jump into the mapped loader at its entry.
pub enum HandoffDecision {
    /// The program was run directly: the runtime should `execve` the
    /// loader with this stack, printing a help banner first when there
    /// was at most one argument.
    ExecDirect { show_banner: bool, start: StartContext },
    /// The program ran as an interpreter: jump to `entry` with the
    /// published stack.
    Jump { start: StartContext, entry: usize },
}

/// Finishes the handoff after the loader has been mapped: publishes the
/// loader's base in `AT_BASE`, installs the trampoline as the effective
/// entry while saving the real one, rebuilds the stack if an extra
/// environment entry has to be spliced in, and points the trampoline at
/// the slot to restore.
pub fn finish_handoff(
    args: &mut Args,
    arena: &StringArena,
    edit: &EnvEdit,
    load_bias: usize,
    entry_point: usize,
    trampoline: Option<usize>,
    tramp: &mut TrampolineContext,
) -> (r: HandoffDecision)
    requires
        old(args).wf(arena),
    ensures
        final(args).wf(arena),
        final(args).argc == old(args).argc,
        final(args).envc == old(args).envc,
        final(args).base == old(args).base,
        final(args).auxv == old(args).auxv,
        final(args).extra_env == old(args).extra_env,
        final(args).env_iterated == old(args).env_iterated,
        ({
            let a0 = old(args);
            let direct = !(a0.auxv.at_base matches Some(e) && a0.stack@[e.pos + 1] != 0);
            if direct {
                &&& r matches HandoffDecision::ExecDirect { show_banner, start }
                    && show_banner == (a0.argc <= 1) && crate::args::start_context_ok(
                    final(args),
                    &start,
                )
                &&& final(args).stack@ == a0.stack@
                &&& *final(tramp) == *old(tramp)
            } else {
                let e = a0.auxv.at_base->Some_0;
                let after_base = a0.stack@.update(e.pos + 1, load_bias);
                &&& r matches HandoffDecision::Jump { start, entry } && entry == entry_point
                    && crate::args::start_context_ok(final(args), &start) && ({
                    match (trampoline, a0.auxv.at_entry) {
                        (Some(tr), Some(en2)) => {
                            &&& final(args).stack@ == after_base.update(en2.pos + 1, tr)
                            &&& final(tramp).elf_entry == a0.stack@[en2.pos + 1]
                            &&& final(tramp).env_string == edit.old_string
                            &&& final(tramp).env_entry == (match start.extra_env {
                                Some(ix) => Some(ix),
                                None => edit.entry,
                            })
                        },
                        _ => {
                            &&& final(args).stack@ == after_base
                            &&& (match (trampoline, start.extra_env) {
                                (Some(tr), Some(ix)) => final(tramp).env_entry == Some(ix)
                                    && final(tramp).elf_entry == old(tramp).elf_entry
                                    && final(tramp).env_string == old(tramp).env_string,
                                _ => *final(tramp) == *old(tramp),
                            })
                        },
                    }
                })
            }
        }),
{
    let at_base = args.auxv.at_base;
    let base_val = match at_base {
        Some(e) => {
            proof {
                crate::auxv::lemma_aux_count_facts(
                    args.stack@,
                    args.auxv.start as int,
                    args.auxv.auxvc as int,
                );
            }
            e.value(&args.stack)
        },
        None => 0,
    };
    let effective_base: Option<crate::auxv::Entry> = match at_base {
        Some(e) => if base_val != 0 {
            Some(e)
        } else {
            None
        },
        None => None,
    };
    let e = match effective_base {
        Some(e) => e,
        None => {
            // We were executed directly: the runtime will execve the
            // loader.
            let show_banner = args.argc() <= 1;
            let start = args.handoff(arena);
            return HandoffDecision::ExecDirect { show_banner, start };
        },
    };
    // We are the loader for someone else: publish the real loader's base.
    args.set_auxv_value(arena, e, load_bias);
    // Install the trampoline as the effective entry, saving the real one.
    match trampoline {
        Some(tr) => {
            match args.auxv.at_entry {
                Some(en2) => {
                    let real_entry = en2.value(&args.stack);
                    tramp.set_elf_entry(real_entry);
                    tramp.revert_env(edit);
                    args.set_auxv_value(arena, en2, tr);
                },
                None => {},
            }
        },
        None => {},
    }
    let start = args.handoff(arena);
    // If the shifter spliced in the extra entry, that is the slot the
    // trampoline must restore.
    match trampoline {
        Some(_) => {
            match start.extra_env {
                Some(ix) => {
                    tramp.revert_env_entry(ix);
                },
                None => {},
            }
        },
        None => {},
    }
    HandoffDecision::Jump { start, entry: entry_point }
}

} // verus!
