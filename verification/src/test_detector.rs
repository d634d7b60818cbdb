//! Registration of test cases from a directory's entries and its effective
//! configuration.
//!
//! A directory configuration comes in two shapes: a flat shape with one
//! command record for every source file, and a nested shape that names
//! several command variants, each of which is applied to every source file.
//! A directory without a configuration of its own inherits the nearest
//! ancestor's; a directory with no effective configuration registers no
//! tests for its own files.

use crate::test_configuration::TestConfig;
use crate::test_database::{PathHandle, ResolvedTest, TestDatabase, lemma_resolved_stable};
use crate::text::{copy_bytes, replace_all, replaced};
use vstd::prelude::*;

verus! {

broadcast use crate::test_database::lemma_path_handle_id_nonneg, crate::test_database::lemma_command_handle_id_nonneg, crate::test_database::lemma_string_handle_id_nonneg;

/// One command record of a directory configuration.
#[derive(Clone)]
pub struct CommandSpec {
    /// Shell-command template; `{mcc}` stands for the executable under test,
    /// `{filename}` and `{base}` for the test's own path.
    pub command: Vec<u8>,
    /// Expected process exit code; zero unless the record overrides it.
    pub return_code: i32,
    /// Whether captured standard error must match an approved snapshot file.
    pub snapshot_test_stderr: bool,
}

/// A directory's configuration: one record for every source file, or a
/// mapping from variant name to record, applied once per name per file.
#[derive(Clone)]
pub enum DirConfig {
    Flat(CommandSpec),
    Nested(Vec<(Vec<u8>, CommandSpec)>),
}

/// The inheritance rule: a directory's own configuration wins; without one
/// the configuration handed down from the parent applies.
pub fn effective_config(own: Option<DirConfig>, inherited: Option<DirConfig>) -> (r: Option<
    DirConfig,
>)
    ensures
        own is Some ==> r == own,
        own is None ==> r == inherited,
{
    match own {
        Some(c) => Some(c),
        None => inherited,
    }
}

/// The bytes of the `{mcc}` placeholder.
pub open spec fn mcc_marker() -> Seq<u8> {
    seq![123u8, 109u8, 99u8, 99u8, 125u8]
}

/// True when the path names a source file: it ends in `.c` and the final
/// path component has a non-empty stem.
pub open spec fn is_c_path(p: Seq<u8>) -> bool {
    &&& p.len() >= 3
    &&& p[p.len() - 2] == 46
    &&& p[p.len() - 1] == 99
    &&& p[p.len() - 3] != 47
}

/// Executable counterpart of [`is_c_path`].
pub fn is_c_file(p: &Vec<u8>) -> (r: bool)
    ensures
        r == is_c_path(p@),
{
    let n = p.len();
    n >= 3 && p[n - 2] == 46 && p[n - 1] == 99 && p[n - 3] != 47
}

/// How many of the entries name source files.
pub open spec fn c_count(entries: Seq<Seq<u8>>) -> nat
    decreases entries.len(),
{
    if entries.len() == 0 {
        0
    } else {
        (if is_c_path(entries.first()) {
            1nat
        } else {
            0nat
        }) + c_count(entries.drop_first())
    }
}

/// The resolved test that one source file yields under one command record.
pub open spec fn plan_one(
    path: Seq<u8>,
    dir: Seq<u8>,
    cmd: Seq<u8>,
    code: int,
    suffix: Seq<u8>,
    snap: bool,
) -> ResolvedTest {
    ResolvedTest {
        path: path,
        command: cmd,
        expect_code: code,
        suffix: suffix,
        working_dir: dir,
        snapshot_test_stderr: snap,
    }
}

/// The resolved tests that a directory's entries yield under one command
/// record: one per source file, in directory order.
pub open spec fn plan_files(
    entries: Seq<Seq<u8>>,
    dir: Seq<u8>,
    cmd: Seq<u8>,
    code: int,
    suffix: Seq<u8>,
    snap: bool,
) -> Seq<ResolvedTest>
    decreases entries.len(),
{
    if entries.len() == 0 {
        Seq::empty()
    } else {
        (if is_c_path(entries.first()) {
            seq![plan_one(entries.first(), dir, cmd, code, suffix, snap)]
        } else {
            Seq::empty()
        }) + plan_files(entries.drop_first(), dir, cmd, code, suffix, snap)
    }
}

/// The resolved tests of a nested configuration: for each named variant in
/// order, one test per source file, with the variant name as the suffix
/// label and `{mcc}` already substituted in the variant's template.
pub open spec fn plan_variants(
    vars: Seq<(Vec<u8>, CommandSpec)>,
    entries: Seq<Seq<u8>>,
    dir: Seq<u8>,
    mcc: Seq<u8>,
) -> Seq<ResolvedTest>
    decreases vars.len(),
{
    if vars.len() == 0 {
        Seq::empty()
    } else {
        plan_files(
            entries,
            dir,
            replaced(vars.first().1.command@, mcc_marker(), mcc),
            vars.first().1.return_code as int,
            vars.first().0@,
            vars.first().1.snapshot_test_stderr,
        ) + plan_variants(vars.drop_first(), entries, dir, mcc)
    }
}

/// The resolved tests a directory yields under an effective configuration:
/// none without one, one per source file for the flat shape, and one per
/// variant per source file for the nested shape.
pub open spec fn plan_dir(
    config: Option<DirConfig>,
    entries: Seq<Seq<u8>>,
    dir: Seq<u8>,
    mcc: Seq<u8>,
) -> Seq<ResolvedTest> {
    match config {
        None => Seq::empty(),
        Some(DirConfig::Flat(c)) => plan_files(
            entries,
            dir,
            replaced(c.command@, mcc_marker(), mcc),
            c.return_code as int,
            Seq::empty(),
            c.snapshot_test_stderr,
        ),
        Some(DirConfig::Nested(vars)) => plan_variants(vars@, entries, dir, mcc),
    }
}

/// Extending the entry list by one entry appends its test, if it is a
/// source file.
proof fn lemma_plan_files_snoc(
    entries: Seq<Seq<u8>>,
    x: Seq<u8>,
    dir: Seq<u8>,
    cmd: Seq<u8>,
    code: int,
    suffix: Seq<u8>,
    snap: bool,
)
    ensures
        plan_files(entries.push(x), dir, cmd, code, suffix, snap) == plan_files(
            entries,
            dir,
            cmd,
            code,
            suffix,
            snap,
        ) + (if is_c_path(x) {
            seq![plan_one(x, dir, cmd, code, suffix, snap)]
        } else {
            Seq::<ResolvedTest>::empty()
        }),
    decreases entries.len(),
{
    let whole = entries.push(x);
    if entries.len() == 0 {
        assert(whole.first() == x);
        assert(whole.drop_first() =~= Seq::<Seq<u8>>::empty());
        assert(plan_files(whole.drop_first(), dir, cmd, code, suffix, snap) =~= Seq::<
            ResolvedTest,
        >::empty());
        if is_c_path(x) {
            assert(plan_files(whole, dir, cmd, code, suffix, snap) =~= seq![
                plan_one(x, dir, cmd, code, suffix, snap),
            ]);
            assert(plan_files(entries, dir, cmd, code, suffix, snap) + seq![
                plan_one(x, dir, cmd, code, suffix, snap),
            ] =~= seq![plan_one(x, dir, cmd, code, suffix, snap)]);
        } else {
            assert(plan_files(whole, dir, cmd, code, suffix, snap) =~= Seq::<
                ResolvedTest,
            >::empty());
            assert(plan_files(entries, dir, cmd, code, suffix, snap) + Seq::<
                ResolvedTest,
            >::empty() =~= Seq::<ResolvedTest>::empty());
        }
    } else {
        assert(whole.first() == entries.first());
        assert(whole.drop_first() =~= entries.drop_first().push(x));
        lemma_plan_files_snoc(entries.drop_first(), x, dir, cmd, code, suffix, snap);
        assert(plan_files(whole, dir, cmd, code, suffix, snap) =~= plan_files(
            entries,
            dir,
            cmd,
            code,
            suffix,
            snap,
        ) + (if is_c_path(x) {
            seq![plan_one(x, dir, cmd, code, suffix, snap)]
        } else {
            Seq::<ResolvedTest>::empty()
        }));
    }
}

/// One command record yields exactly one test per source file.
pub proof fn lemma_plan_files_len(
    entries: Seq<Seq<u8>>,
    dir: Seq<u8>,
    cmd: Seq<u8>,
    code: int,
    suffix: Seq<u8>,
    snap: bool,
)
    ensures
        plan_files(entries, dir, cmd, code, suffix, snap).len() == c_count(entries),
    decreases entries.len(),
{
    if entries.len() > 0 {
        lemma_plan_files_len(entries.drop_first(), dir, cmd, code, suffix, snap);
    }
}

/// A nested configuration with N named variants over a directory with M
/// source files yields exactly N times M test cases.
pub proof fn lemma_variant_count(
    vars: Seq<(Vec<u8>, CommandSpec)>,
    entries: Seq<Seq<u8>>,
    dir: Seq<u8>,
    mcc: Seq<u8>,
)
    ensures
        plan_variants(vars, entries, dir, mcc).len() == vars.len() * c_count(entries),
    decreases vars.len(),
{
    if vars.len() == 0 {
        assert(vars.len() * c_count(entries) == 0) by (nonlinear_arith)
            requires
                vars.len() == 0,
        ;
    } else {
        lemma_variant_count(vars.drop_first(), entries, dir, mcc);
        lemma_plan_files_len(
            entries,
            dir,
            replaced(vars.first().1.command@, mcc_marker(), mcc),
            vars.first().1.return_code as int,
            vars.first().0@,
            vars.first().1.snapshot_test_stderr,
        );
        assert(c_count(entries) + (vars.len() - 1) * c_count(entries) == vars.len() * c_count(
            entries,
        )) by (nonlinear_arith);
    }
}

/// A directory contributes one test per command record per source file:
/// none without an effective configuration, one per source file for the
/// flat shape, and variants times source files for the nested shape.
pub proof fn lemma_plan_dir_len(
    config: Option<DirConfig>,
    entries: Seq<Seq<u8>>,
    dir: Seq<u8>,
    mcc: Seq<u8>,
)
    ensures
        plan_dir(config, entries, dir, mcc).len() == n_variants(config) * c_count(entries),
{
    match config {
        None => {
            assert(0 * c_count(entries) == 0) by (nonlinear_arith);
        },
        Some(DirConfig::Flat(c)) => {
            lemma_plan_files_len(
                entries,
                dir,
                replaced(c.command@, mcc_marker(), mcc),
                c.return_code as int,
                Seq::empty(),
                c.snapshot_test_stderr,
            );
            assert(1 * c_count(entries) == c_count(entries)) by (nonlinear_arith);
        },
        Some(DirConfig::Nested(vars)) => {
            lemma_variant_count(vars@, entries, dir, mcc);
        },
    }
}

/// Registers one test per source file among `entries` under one command
/// record: the template has `{mcc}` substituted and is interned once, the
/// suffix label is interned once, and every entry's path is interned.
pub fn detect_tests_with_command(
    db: &mut TestDatabase,
    current_dir: PathHandle,
    entries: &Vec<Vec<u8>>,
    cfg: &CommandSpec,
    suffix: &Vec<u8>,
    mcc_path: &Vec<u8>,
)
    requires
        old(db).wf(),
        current_dir.id() < old(db).spec_paths().len(),
        old(db).spec_paths().len() + entries@.len() <= u32::MAX,
        old(db).spec_strings().len() + 2 <= u32::MAX,
    ensures
        final(db).wf(),
        final(db).spec_paths() == old(db).spec_paths() + entries.deep_view(),
        final(db).spec_strings().len() == old(db).spec_strings().len() + 2,
        final(db).resolved_tests() == old(db).resolved_tests() + plan_files(
            entries.deep_view(),
            old(db).spec_paths()[current_dir.id()],
            replaced(cfg.command@, mcc_marker(), mcc_path@),
            cfg.return_code as int,
            suffix@,
            cfg.snapshot_test_stderr,
        ),
{
    let ghost dir_path = old(db).spec_paths()[current_dir.id()];
    let ghost cmd_s = replaced(cfg.command@, mcc_marker(), mcc_path@);
    let mut marker: Vec<u8> = Vec::new();
    marker.push(123);
    marker.push(109);
    marker.push(99);
    marker.push(99);
    marker.push(125);
    proof {
        assert(marker@ =~= mcc_marker());
    }
    let template = replace_all(&cfg.command, &marker, mcc_path);
    let command_h = db.add_command(template);
    let suffix_h = db.add_string(copy_bytes(suffix));
    proof {
        assert(db.spec_strings() == old(db).spec_strings().push(cmd_s).push(suffix@));
        assert(old(db).spec_paths() + Seq::<Seq<u8>>::empty() =~= old(db).spec_paths());
        assert(old(db).spec_strings() + seq![cmd_s, suffix@] =~= old(db).spec_strings().push(
            cmd_s,
        ).push(suffix@));
        lemma_resolved_stable(
            old(db),
            db,
            Seq::empty(),
            seq![cmd_s, suffix@],
        );
    }
    let ghost base = *db;
    let n = entries.len();
    let mut e: usize = 0;
    proof {
        assert(entries.deep_view().subrange(0, 0) =~= Seq::<Seq<u8>>::empty());
        assert(base.spec_paths() + Seq::<Seq<u8>>::empty() =~= base.spec_paths());
        assert(base.resolved_tests() + plan_files(
            entries.deep_view().subrange(0, 0),
            dir_path,
            cmd_s,
            cfg.return_code as int,
            suffix@,
            cfg.snapshot_test_stderr,
        ) =~= base.resolved_tests());
    }
    while e < n
        invariant
            e <= n,
            n == entries@.len(),
            db.wf(),
            base.wf(),
            base.spec_paths().len() + entries@.len() <= u32::MAX,
            current_dir.id() < base.spec_paths().len(),
            dir_path == base.spec_paths()[current_dir.id()],
            command_h.id() < base.spec_strings().len(),
            suffix_h.id() < base.spec_strings().len(),
            cmd_s == base.spec_strings()[command_h.id()],
            suffix@ == base.spec_strings()[suffix_h.id()],
            db.spec_strings() == base.spec_strings(),
            db.spec_paths() == base.spec_paths() + entries.deep_view().subrange(0, e as int),
            db.resolved_tests() == base.resolved_tests() + plan_files(
                entries.deep_view().subrange(0, e as int),
                dir_path,
                cmd_s,
                cfg.return_code as int,
                suffix@,
                cfg.snapshot_test_stderr,
            ),
        decreases n - e,
    {
        let ghost db_before = *db;
        let ghost seen = entries.deep_view().subrange(0, e as int);
        let entry_copy = copy_bytes(&entries[e]);
        let path_h = db.add_path(entry_copy);
        proof {
            assert(entries.deep_view()[e as int] == entries@[e as int]@);
            assert(db_before.spec_paths() + seq![entries.deep_view()[e as int]]
                =~= db_before.spec_paths().push(entries.deep_view()[e as int]));
            assert(db_before.spec_strings() + Seq::<Seq<u8>>::empty()
                =~= db_before.spec_strings());
            lemma_resolved_stable(
                &db_before,
                db,
                seq![entries.deep_view()[e as int]],
                Seq::empty(),
            );
            assert(entries.deep_view().subrange(0, e + 1) =~= seen.push(
                entries.deep_view()[e as int],
            ));
            assert(db.spec_paths() =~= base.spec_paths() + entries.deep_view().subrange(
                0,
                e + 1,
            ));
        }
        if is_c_file(&entries[e]) {
            let test = TestConfig {
                path: path_h,
                command: command_h,
                expect_code: cfg.return_code,
                suffix: suffix_h,
                working_dir: current_dir,
                snapshot_test_stderr: cfg.snapshot_test_stderr,
            };
            let ghost db_mid = *db;
            db.add_test(test);
            proof {
                assert(db.spec_paths()[path_h.id()] == entries.deep_view()[e as int]);
                assert((base.spec_paths() + entries.deep_view().subrange(0, e + 1))[
                    current_dir.id()] == base.spec_paths()[current_dir.id()]);
                assert(db.spec_paths()[current_dir.id()] == dir_path);
                assert(test.valid_for(
                    db.spec_paths().len() as int,
                    db.spec_strings().len() as int,
                ));
                assert(db.wf());
                assert(db.resolve_test(test) == plan_one(
                    entries.deep_view()[e as int],
                    dir_path,
                    cmd_s,
                    cfg.return_code as int,
                    suffix@,
                    cfg.snapshot_test_stderr,
                ));
                assert(db.resolved_tests() =~= db_mid.resolved_tests().push(
                    db.resolve_test(test),
                ));
            }
        }
        proof {
            lemma_plan_files_snoc(
                seen,
                entries.deep_view()[e as int],
                dir_path,
                cmd_s,
                cfg.return_code as int,
                suffix@,
                cfg.snapshot_test_stderr,
            );
            assert(db.resolved_tests() =~= base.resolved_tests() + plan_files(
                entries.deep_view().subrange(0, e + 1),
                dir_path,
                cmd_s,
                cfg.return_code as int,
                suffix@,
                cfg.snapshot_test_stderr,
            ));
        }
        e = e + 1;
    }
    proof {
        assert(entries.deep_view().subrange(0, n as int) =~= entries.deep_view());
    }
}

/// Registers the tests a directory's own source files yield under its
/// effective configuration. Without an effective configuration nothing is
/// registered, whatever an ancestor may define elsewhere.
pub fn detect_tests_in_dir(
    db: &mut TestDatabase,
    current_dir: PathHandle,
    entries: &Vec<Vec<u8>>,
    config: &Option<DirConfig>,
    mcc_path: &Vec<u8>,
)
    requires
        old(db).wf(),
        current_dir.id() < old(db).spec_paths().len(),
        old(db).spec_paths().len() + n_variants(*config) * entries@.len() <= u32::MAX,
        old(db).spec_strings().len() + 2 * n_variants(*config) <= u32::MAX,
    ensures
        final(db).wf(),
        final(db).resolved_tests() == old(db).resolved_tests() + plan_dir(
            *config,
            entries.deep_view(),
            old(db).spec_paths()[current_dir.id()],
            mcc_path@,
        ),
        final(db).spec_tests().len() == old(db).spec_tests().len() + n_variants(*config) * c_count(
            entries.deep_view(),
        ),
        config is None ==> final(db).spec_tests() == old(db).spec_tests(),
{
    proof {
        lemma_plan_dir_len(
            *config,
            entries.deep_view(),
            old(db).spec_paths()[current_dir.id()],
            mcc_path@,
        );
    }
    match config {
        None => {
            proof {
                assert(old(db).resolved_tests() + Seq::<ResolvedTest>::empty() =~= old(
                    db,
                ).resolved_tests());
            }
        },
        Some(DirConfig::Flat(c)) => {
            let empty_suffix: Vec<u8> = Vec::new();
            proof {
                assert(empty_suffix@ =~= Seq::<u8>::empty());
            }
            detect_tests_with_command(db, current_dir, entries, c, &empty_suffix, mcc_path);
        },
        Some(DirConfig::Nested(vars)) => {
            let ghost dir_path = old(db).spec_paths()[current_dir.id()];
            let ghost base = *old(db);
            let nv = vars.len();
            let mut i: usize = 0;
            proof {
                assert(vars@.subrange(0, 0) =~= Seq::<(Vec<u8>, CommandSpec)>::empty());
                assert(base.resolved_tests() + plan_variants(
                    vars@.subrange(0, 0),
                    entries.deep_view(),
                    dir_path,
                    mcc_path@,
                ) =~= base.resolved_tests());
            }
            while i < nv
                invariant
                    i <= nv,
                    nv == vars@.len(),
                    db.wf(),
                    base.wf(),
                    current_dir.id() < base.spec_paths().len(),
                    dir_path == base.spec_paths()[current_dir.id()],
                    base.spec_paths().len() + nv * entries@.len() <= u32::MAX,
                    base.spec_strings().len() + 2 * nv <= u32::MAX,
                    db.spec_paths().len() == base.spec_paths().len() + i * entries@.len(),
                    db.spec_strings().len() == base.spec_strings().len() + 2 * i,
                    db.spec_paths().subrange(0, base.spec_paths().len() as int) == base
                        .spec_paths(),
                    db.resolved_tests() == base.resolved_tests() + plan_variants(
                        vars@.subrange(0, i as int),
                        entries.deep_view(),
                        dir_path,
                        mcc_path@,
                    ),
                decreases nv - i,
            {
                proof {
                    assert(i * entries@.len() >= 0) by (nonlinear_arith)
                        requires
                            i >= 0,
                    ;
                    assert((i + 1) * entries@.len() == i * entries@.len() + entries@.len())
                        by (nonlinear_arith);
                    assert((i + 1) * entries@.len() <= nv * entries@.len()) by (nonlinear_arith)
                        requires
                            i + 1 <= nv,
                    ;
                    assert(db.spec_paths()[current_dir.id()] == db.spec_paths().subrange(
                        0,
                        base.spec_paths().len() as int,
                    )[current_dir.id()]);
                    assert(db.spec_paths()[current_dir.id()] == dir_path);
                }
                let ghost db_before = *db;
                let (name, cs) = &vars[i];
                detect_tests_with_command(db, current_dir, entries, cs, name, mcc_path);
                proof {
                    assert(vars@.subrange(0, i + 1) =~= vars@.subrange(0, i as int).push(
                        vars@[i as int],
                    ));
                    lemma_plan_variants_snoc(
                        vars@.subrange(0, i as int),
                        vars@[i as int],
                        entries.deep_view(),
                        dir_path,
                        mcc_path@,
                    );
                    assert(db.resolved_tests() =~= base.resolved_tests() + plan_variants(
                        vars@.subrange(0, i + 1),
                        entries.deep_view(),
                        dir_path,
                        mcc_path@,
                    ));
                    assert(db.spec_paths().subrange(0, base.spec_paths().len() as int)
                        =~= base.spec_paths());
                }
                i = i + 1;
            }
            proof {
                assert(vars@.subrange(0, nv as int) =~= vars@);
            }
        },
    }
}

/// How many command records an effective configuration holds: none, one for
/// the flat shape, or one per named variant.
pub open spec fn n_variants(config: Option<DirConfig>) -> nat {
    match config {
        None => 0,
        Some(DirConfig::Flat(_)) => 1,
        Some(DirConfig::Nested(vars)) => vars@.len(),
    }
}

/// Extending the variant list by one variant appends its tests.
proof fn lemma_plan_variants_snoc(
    vars: Seq<(Vec<u8>, CommandSpec)>,
    x: (Vec<u8>, CommandSpec),
    entries: Seq<Seq<u8>>,
    dir: Seq<u8>,
    mcc: Seq<u8>,
)
    ensures
        plan_variants(vars.push(x), entries, dir, mcc) == plan_variants(vars, entries, dir, mcc)
            + plan_files(
            entries,
            dir,
            replaced(x.1.command@, mcc_marker(), mcc),
            x.1.return_code as int,
            x.0@,
            x.1.snapshot_test_stderr,
        ),
    decreases vars.len(),
{
    let whole = vars.push(x);
    let xplan = plan_files(
        entries,
        dir,
        replaced(x.1.command@, mcc_marker(), mcc),
        x.1.return_code as int,
        x.0@,
        x.1.snapshot_test_stderr,
    );
    if vars.len() == 0 {
        assert(whole.first() == x);
        assert(whole.drop_first() =~= Seq::<(Vec<u8>, CommandSpec)>::empty());
        assert(plan_variants(whole.drop_first(), entries, dir, mcc) =~= Seq::<
            ResolvedTest,
        >::empty());
        assert(plan_variants(whole, entries, dir, mcc) =~= xplan);
        assert(plan_variants(vars, entries, dir, mcc) + xplan =~= xplan);
    } else {
        assert(whole.first() == vars.first());
        assert(whole.drop_first() =~= vars.drop_first().push(x));
        lemma_plan_variants_snoc(vars.drop_first(), x, entries, dir, mcc);
        assert(plan_variants(whole, entries, dir, mcc) =~= plan_variants(vars, entries, dir, mcc)
            + xplan);
    }
}

} // verus!
