//! An arena that interns paths, command strings and label strings, and stores
//! the flat list of resolved test cases.
//!
//! Interned values are addressed through small copyable handles. A handle is
//! valid only against the database that issued it; handles are assigned in
//! insertion order and never invalidated, because the arenas are append-only.

use crate::test_configuration::TestConfig;
use vstd::prelude::*;

verus! {

/// Handle to an interned filesystem path.
#[derive(Debug, Copy, Clone, PartialEq, Eq, Hash, Structural)]
pub struct PathHandle(u32);

/// Handle to an interned shell-command template.
#[derive(Debug, Copy, Clone, PartialEq, Eq, Hash, Structural)]
pub struct CommandHandle(u32);

/// Handle to an interned free-form label string.
#[derive(Debug, Copy, Clone, PartialEq, Eq, Hash, Structural)]
pub struct StringHandle(u32);

impl PathHandle {
    /// The arena index this handle stands for.
    pub closed spec fn id(self) -> int {
        self.0 as int
    }
}

impl CommandHandle {
    /// The arena index this handle stands for.
    pub closed spec fn id(self) -> int {
        self.0 as int
    }
}

impl StringHandle {
    /// The arena index this handle stands for.
    pub closed spec fn id(self) -> int {
        self.0 as int
    }
}

/// The arena-backed store of interned paths, strings and test cases.
///
/// Commands and labels share one string arena: they are semantically distinct
/// but storage-compatible, and the distinct handle types keep them apart.
pub struct TestDatabase {
    paths: Vec<Vec<u8>>,
    tests: Vec<TestConfig>,
    strings: Vec<Vec<u8>>,
}

impl TestDatabase {
    /// The interned paths, in insertion order.
    pub closed spec fn spec_paths(&self) -> Seq<Seq<u8>> {
        self.paths.deep_view()
    }

    /// The interned command and label strings, in insertion order.
    pub closed spec fn spec_strings(&self) -> Seq<Seq<u8>> {
        self.strings.deep_view()
    }

    /// The registered test cases, in insertion order.
    pub closed spec fn spec_tests(&self) -> Seq<TestConfig> {
        self.tests@
    }

    /// Every handle held by every registered test points into its arena.
    pub open spec fn wf(&self) -> bool {
        forall|i: int|
            0 <= i < self.spec_tests().len() ==> (#[trigger] self.spec_tests()[i]).valid_for(
                self.spec_paths().len() as int,
                self.spec_strings().len() as int,
            )
    }

    /// Creates an empty database.
    pub fn new() -> (db: Self)
        ensures
            db.spec_paths() == Seq::<Seq<u8>>::empty(),
            db.spec_strings() == Seq::<Seq<u8>>::empty(),
            db.spec_tests() == Seq::<TestConfig>::empty(),
            db.wf(),
    {
        let db = Self { paths: Vec::new(), tests: Vec::new(), strings: Vec::new() };
        proof {
            assert(db.spec_paths() =~~= Seq::<Seq<u8>>::empty());
            assert(db.spec_strings() =~~= Seq::<Seq<u8>>::empty());
        }
        db
    }

    /// Interns a path and hands back its handle.
    #[must_use]
    pub fn add_path(&mut self, path: Vec<u8>) -> (h: PathHandle)
        requires
            old(self).spec_paths().len() < u32::MAX,
        ensures
            h.id() == old(self).spec_paths().len(),
            final(self).spec_paths() == old(self).spec_paths().push(path@),
            final(self).spec_strings() == old(self).spec_strings(),
            final(self).spec_tests() == old(self).spec_tests(),
    {
        let index = self.paths.len();
        self.paths.push(path);
        proof {
            assert(self.spec_paths() =~~= old(self).spec_paths().push(self.paths@[index as int]@));
        }
        PathHandle(index as u32)
    }

    /// Resolves a path handle to the interned path.
    #[must_use]
    pub fn get_path(&self, handle: PathHandle) -> (p: &Vec<u8>)
        requires
            handle.id() < self.spec_paths().len(),
        ensures
            p@ == self.spec_paths()[handle.id()],
    {
        &self.paths[handle.0 as usize]
    }

    /// Interns a shell-command template and hands back its handle.
    #[must_use]
    pub fn add_command(&mut self, command: Vec<u8>) -> (h: CommandHandle)
        requires
            old(self).spec_strings().len() < u32::MAX,
        ensures
            h.id() == old(self).spec_strings().len(),
            final(self).spec_strings() == old(self).spec_strings().push(command@),
            final(self).spec_paths() == old(self).spec_paths(),
            final(self).spec_tests() == old(self).spec_tests(),
    {
        let index = self.strings.len();
        self.strings.push(command);
        proof {
            assert(self.spec_strings() =~~= old(self).spec_strings().push(
                self.strings@[index as int]@,
            ));
        }
        CommandHandle(index as u32)
    }

    /// Resolves a command handle to the interned template.
    #[must_use]
    pub fn get_command(&self, handle: CommandHandle) -> (c: &Vec<u8>)
        requires
            handle.id() < self.spec_strings().len(),
        ensures
            c@ == self.spec_strings()[handle.id()],
    {
        &self.strings[handle.0 as usize]
    }

    /// Interns a label string and hands back its handle.
    #[must_use]
    pub fn add_string(&mut self, command: Vec<u8>) -> (h: StringHandle)
        requires
            old(self).spec_strings().len() < u32::MAX,
        ensures
            h.id() == old(self).spec_strings().len(),
            final(self).spec_strings() == old(self).spec_strings().push(command@),
            final(self).spec_paths() == old(self).spec_paths(),
            final(self).spec_tests() == old(self).spec_tests(),
    {
        let index = self.strings.len();
        self.strings.push(command);
        proof {
            assert(self.spec_strings() =~~= old(self).spec_strings().push(
                self.strings@[index as int]@,
            ));
        }
        StringHandle(index as u32)
    }

    /// Resolves a label handle to the interned string.
    #[must_use]
    pub fn get_string(&self, handle: StringHandle) -> (s: &Vec<u8>)
        requires
            handle.id() < self.spec_strings().len(),
        ensures
            s@ == self.spec_strings()[handle.id()],
    {
        &self.strings[handle.0 as usize]
    }

    /// Appends a resolved test case to the database.
    pub fn add_test(&mut self, test: TestConfig)
        ensures
            final(self).spec_tests() == old(self).spec_tests().push(test),
            final(self).spec_paths() == old(self).spec_paths(),
            final(self).spec_strings() == old(self).spec_strings(),
    {
        self.tests.push(test);
    }

    /// How many paths are interned; callers bound the arena before growing it.
    #[must_use]
    pub fn path_count(&self) -> (n: usize)
        ensures
            n == self.spec_paths().len(),
    {
        self.paths.len()
    }

    /// How many command and label strings are interned.
    #[must_use]
    pub fn string_count(&self) -> (n: usize)
        ensures
            n == self.spec_strings().len(),
    {
        self.strings.len()
    }

    /// The frozen, ordered list of registered test cases.
    #[must_use]
    pub fn tests(&self) -> (ts: &Vec<TestConfig>)
        ensures
            ts@ == self.spec_tests(),
    {
        &self.tests
    }

    /// The content one test case stands for, with every handle replaced by
    /// the interned bytes it points at.
    pub open spec fn resolve_test(&self, t: TestConfig) -> ResolvedTest {
        ResolvedTest {
            path: self.spec_paths()[t.path.id()],
            command: self.spec_strings()[t.command.id()],
            expect_code: t.expect_code as int,
            suffix: self.spec_strings()[t.suffix.id()],
            working_dir: self.spec_paths()[t.working_dir.id()],
            snapshot_test_stderr: t.snapshot_test_stderr,
        }
    }

    /// The registered test cases with all handles resolved, in order.
    pub open spec fn resolved_tests(&self) -> Seq<ResolvedTest> {
        Seq::new(self.spec_tests().len(), |i: int| self.resolve_test(self.spec_tests()[i]))
    }
}

/// A path handle's index is never negative.
pub broadcast proof fn lemma_path_handle_id_nonneg(h: PathHandle)
    ensures
        0 <= #[trigger] h.id(),
{
}

/// A command handle's index is never negative.
pub broadcast proof fn lemma_command_handle_id_nonneg(h: CommandHandle)
    ensures
        0 <= #[trigger] h.id(),
{
}

/// A label handle's index is never negative.
pub broadcast proof fn lemma_string_handle_id_nonneg(h: StringHandle)
    ensures
        0 <= #[trigger] h.id(),
{
}

/// The fully resolved content of one test case.
pub ghost struct ResolvedTest {
    pub path: Seq<u8>,
    pub command: Seq<u8>,
    pub expect_code: int,
    pub suffix: Seq<u8>,
    pub working_dir: Seq<u8>,
    pub snapshot_test_stderr: bool,
}

/// Growing the arenas does not change what the already registered tests
/// resolve to: handles are never invalidated.
pub proof fn lemma_resolved_stable(
    db1: &TestDatabase,
    db2: &TestDatabase,
    pextra: Seq<Seq<u8>>,
    sextra: Seq<Seq<u8>>,
)
    requires
        db1.wf(),
        db2.spec_tests() == db1.spec_tests(),
        db2.spec_paths() == db1.spec_paths() + pextra,
        db2.spec_strings() == db1.spec_strings() + sextra,
    ensures
        db2.wf(),
        db2.resolved_tests() == db1.resolved_tests(),
{
    assert forall|i: int| 0 <= i < db2.spec_tests().len() implies (
    #[trigger] db2.spec_tests()[i]).valid_for(
        db2.spec_paths().len() as int,
        db2.spec_strings().len() as int,
    ) by {
        assert(db1.spec_tests()[i].valid_for(
            db1.spec_paths().len() as int,
            db1.spec_strings().len() as int,
        ));
    }
    assert forall|i: int| 0 <= i < db2.resolved_tests().len() implies db2.resolved_tests()[i]
        == db1.resolved_tests()[i] by {
        assert(db1.spec_tests()[i].valid_for(
            db1.spec_paths().len() as int,
            db1.spec_strings().len() as int,
        ));
    }
    assert(db2.resolved_tests() =~= db1.resolved_tests());
}

} // verus!
