use vstd::prelude::*;
use crate::db::Guild;
use crate::table::{Pair, Table, lookup};

verus! {

/// Why a step on a guild's files failed.
#[derive(Debug, Clone, Copy, PartialEq, Eq, Structural)]
pub enum StoreError {
    /// A file or directory could not be created, written, renamed or removed.
    IoFailure,
    /// A file exists but does not hold a valid table.
    FormatFailure,
}

/// What the files of one table hold: the valid snapshot, and the temporary
/// file of a rebuild, if any.
pub struct FileState {
    pub valid: Option<Seq<Pair>>,
    pub tmp: Option<Seq<Pair>>,
}

/// What a guild's directory holds.
pub struct DirState {
    pub dir: bool,
    pub colors: FileState,
    pub users: FileState,
}

impl DirState {
    pub open spec fn file(self, g: Guild) -> FileState {
        match g {
            Guild::Colors => self.colors,
            Guild::Users => self.users,
        }
    }

    pub open spec fn with_file(self, g: Guild, f: FileState) -> DirState {
        match g {
            Guild::Colors => DirState { colors: f, ..self },
            Guild::Users => DirState { users: f, ..self },
        }
    }

    /// No file stands outside the directory.
    pub open spec fn wf(self) -> bool {
        !self.dir ==> (self.colors.valid is None && self.colors.tmp is None && self.users.valid is None
            && self.users.tmp is None)
    }

    /// A guild that nothing was ever written for.
    pub open spec fn fresh() -> DirState {
        DirState {
            dir: false,
            colors: FileState { valid: None, tmp: None },
            users: FileState { valid: None, tmp: None },
        }
    }

    pub open spec fn after_ensure_dir(self) -> DirState {
        DirState { dir: true, ..self }
    }

    pub open spec fn after_rm_tmp(self, g: Guild) -> DirState {
        self.with_file(g, FileState { tmp: None, ..self.file(g) })
    }

    /// The first step of a rebuild: the new snapshot goes to the temporary
    /// file, which needs the directory.
    pub open spec fn after_write_tmp(self, g: Guild, t: Seq<Pair>) -> DirState {
        if self.dir {
            self.with_file(g, FileState { tmp: Some(t), ..self.file(g) })
        } else {
            self
        }
    }

    /// The second step of a rebuild: the temporary file takes the place of
    /// the valid one.
    pub open spec fn after_replace(self, g: Guild) -> DirState {
        match self.file(g).tmp {
            Some(t) => self.with_file(g, FileState { valid: Some(t), tmp: None }),
            None => self,
        }
    }

    pub open spec fn after_set(self, g: Guild, t: Seq<Pair>) -> DirState {
        self.after_write_tmp(g, t).after_replace(g)
    }
}

/// The files of one table.
pub struct TableFiles {
    valid: Option<Table>,
    tmp: Option<Table>,
}

impl View for TableFiles {
    type V = FileState;

    closed spec fn view(&self) -> FileState {
        FileState {
            valid: match self.valid {
                Some(t) => Some(t@),
                None => None,
            },
            tmp: match self.tmp {
                Some(t) => Some(t@),
                None => None,
            },
        }
    }
}

/// The files of one guild: its directory and the files of its two tables.
///
/// A table is never changed in place: a rebuild writes the whole new
/// snapshot to a temporary file, which then replaces the valid one.
pub struct GuildFiles {
    dir: bool,
    colors: TableFiles,
    users: TableFiles,
}

impl View for GuildFiles {
    type V = DirState;

    closed spec fn view(&self) -> DirState {
        DirState { dir: self.dir, colors: self.colors@, users: self.users@ }
    }
}

impl GuildFiles {
    /// A guild that nothing was ever written for.
    pub fn new() -> (r: GuildFiles)
        ensures
            r@ == DirState::fresh(),
            r@.wf(),
    {
        GuildFiles {
            dir: false,
            colors: TableFiles { valid: None, tmp: None },
            users: TableFiles { valid: None, tmp: None },
        }
    }

    fn files(&self, g: Guild) -> (r: &TableFiles)
        ensures
            r@ == self@.file(g),
    {
        match g {
            Guild::Colors => &self.colors,
            Guild::Users => &self.users,
        }
    }

    fn set_files(&mut self, g: Guild, f: TableFiles)
        ensures
            final(self)@ == old(self)@.with_file(g, f@),
    {
        match g {
            Guild::Colors => {
                self.colors = f;
            },
            Guild::Users => {
                self.users = f;
            },
        }
    }

    /// Creates the guild's directory if it is absent.
    pub fn ensure_dir(&mut self)
        requires
            old(self)@.wf(),
        ensures
            final(self)@ == old(self)@.after_ensure_dir(),
            final(self)@.wf(),
    {
        self.dir = true;
    }

    /// The valid snapshot of table `g`, or `None` where it has none: no data,
    /// which is no error.
    pub fn open(&self, g: Guild) -> (r: Option<&Table>)
        ensures
            r matches Some(t) ==> self@.file(g).valid == Some(t@),
            r is None <==> self@.file(g).valid is None,
    {
        match &self.files(g).valid {
            Some(t) => Some(t),
            None => None,
        }
    }

    /// Removes the temporary file of table `g`, if any.
    pub fn rm_tmp(&mut self, g: Guild)
        requires
            old(self)@.wf(),
        ensures
            final(self)@ == old(self)@.after_rm_tmp(g),
            final(self)@.wf(),
    {
        let valid = self.take_valid(g);
        self.set_files(g, TableFiles { valid, tmp: None });
        assert(final(self)@ =~= old(self)@.after_rm_tmp(g));
    }

    fn take_valid(&mut self, g: Guild) -> (r: Option<Table>)
        ensures
            final(self)@.dir == old(self)@.dir,
            final(self)@.file(g).tmp == old(self)@.file(g).tmp,
            final(self)@.with_file(g, old(self)@.file(g)) == old(self)@,
            r matches Some(t) ==> old(self)@.file(g).valid == Some(t@),
            r is None <==> old(self)@.file(g).valid is None,
    {
        match g {
            Guild::Colors => self.colors.valid.take(),
            Guild::Users => self.users.valid.take(),
        }
    }

    /// Writes `t` to the temporary file of table `g`: the first step of a
    /// rebuild. It fails where the guild's directory is absent.
    pub fn write_tmp(&mut self, g: Guild, t: Table) -> (r: Result<(), StoreError>)
        requires
            old(self)@.wf(),
        ensures
            final(self)@ == old(self)@.after_write_tmp(g, t@),
            final(self)@.wf(),
            r is Ok <==> old(self)@.dir,
            r matches Err(e) ==> e == StoreError::IoFailure,
    {
        if !self.dir {
            return Err(StoreError::IoFailure);
        }
        let valid = self.take_valid(g);
        self.set_files(g, TableFiles { valid, tmp: Some(t) });
        assert(final(self)@ =~= old(self)@.after_write_tmp(g, t@));
        Ok(())
    }

    /// Puts the temporary file of table `g` in the place of its valid one:
    /// the second step of a rebuild. It fails where there is no temporary
    /// file.
    pub fn replace(&mut self, g: Guild) -> (r: Result<(), StoreError>)
        requires
            old(self)@.wf(),
        ensures
            final(self)@ == old(self)@.after_replace(g),
            final(self)@.wf(),
            r is Ok <==> old(self)@.file(g).tmp is Some,
            r matches Err(e) ==> e == StoreError::IoFailure,
    {
        let tmp = match g {
            Guild::Colors => self.colors.tmp.take(),
            Guild::Users => self.users.tmp.take(),
        };
        match tmp {
            Some(t) => {
                self.set_files(g, TableFiles { valid: Some(t), tmp: None });
                assert(final(self)@ =~= old(self)@.after_replace(g));
                Ok(())
            },
            None => {
                assert(self@ =~= old(self)@);
                Err(StoreError::IoFailure)
            },
        }
    }

    /// Rebuilds table `g` with exactly the pairs of `t`: they go to the
    /// temporary file, which then replaces the valid one. It fails, and
    /// leaves the valid snapshot as it was, where the directory is absent.
    pub fn set(&mut self, g: Guild, t: Table) -> (r: Result<(), StoreError>)
        requires
            old(self)@.wf(),
        ensures
            final(self)@ == old(self)@.after_set(g, t@),
            final(self)@.wf(),
            r is Ok <==> old(self)@.dir,
            r is Ok ==> final(self)@.file(g).valid == Some(t@) && final(self)@.file(g).tmp is None,
            r matches Err(e) ==> e == StoreError::IoFailure,
            r is Err ==> final(self)@ == old(self)@,
    {
        self.write_tmp(g, t)?;
        self.replace(g)
    }
}

/// Rebuilding a table with exactly its current pairs, in the order it
/// enumerates them, leaves what a lookup of any key finds unchanged.
pub proof fn lemma_rebuild_same_keeps_lookups(s: DirState, g: Guild, t: Seq<Pair>, k: Seq<u8>)
    requires
        s.wf(),
        s.file(g).valid == Some(t),
    ensures
        s.after_set(g, t).file(g).valid matches Some(n) && lookup(n, k) == lookup(t, k),
{
}

/// A rebuild cut short after its temporary file was written leaves the valid
/// snapshot as it was; removing the stale temporary file and rebuilding
/// afresh then succeeds and yields the new snapshot.
pub proof fn lemma_interrupted_rebuild(s: DirState, g: Guild, partial: Seq<Pair>, t: Seq<Pair>)
    requires
        s.wf(),
        s.dir,
    ensures
        s.after_write_tmp(g, partial).file(g).valid == s.file(g).valid,
        s.after_write_tmp(g, partial).after_rm_tmp(g).dir,
        s.after_write_tmp(g, partial).after_rm_tmp(g).file(g).tmp is None,
        s.after_write_tmp(g, partial).after_rm_tmp(g).after_set(g, t).file(g).valid == Some(t),
        s.after_write_tmp(g, partial).after_rm_tmp(g).after_set(g, t).file(g).tmp is None,
{
}

/// Creating the directory again, or removing the temporary file again,
/// changes nothing after the first time.
pub proof fn lemma_idempotent_steps(s: DirState, g: Guild)
    ensures
        s.after_ensure_dir().after_ensure_dir() == s.after_ensure_dir(),
        s.after_rm_tmp(g).after_rm_tmp(g) == s.after_rm_tmp(g),
{
    assert(s.after_rm_tmp(g).after_rm_tmp(g) =~= s.after_rm_tmp(g));
}

/// A guild that nothing was ever written for holds no data in either table.
pub proof fn lemma_fresh_has_no_data(g: Guild)
    ensures
        DirState::fresh().file(g).valid is None,
        DirState::fresh().wf(),
{
}

} // verus!
