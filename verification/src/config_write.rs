//! Replacing a configuration file without ever losing its previous text: the decisions
//! of the write, as a machine that names each file-system operation in turn and is told
//! how it went. The operations themselves are performed by the caller.
use vstd::prelude::*;

verus! {

/// A file-system operation on the files of one configuration category: the category
/// directory, its configuration file, the backup of that file and a temporary file.
#[derive(Clone, Copy, Debug, PartialEq, Eq)]
pub enum FsAction {
    /// Tell whether the category directory exists.
    CheckCategoryDir,
    /// Create the category directory and its parents.
    CreateCategoryDir,
    /// Tell whether the backup file exists.
    CheckBackup,
    /// Tell whether the configuration file exists.
    CheckConfig,
    /// Remove the backup file.
    RemoveBackup,
    /// Rename the backup file to the configuration file.
    RestoreBackup,
    /// Create the temporary file, which must not exist yet, and write the new text to it.
    WriteTemp,
    /// Give the permission bits of the configuration file, if it can be read.
    ReadConfigMode,
    /// Set the permission bits of the temporary file.
    SetTempMode(u32),
    /// Rename the configuration file to the backup file.
    MoveConfigToBackup,
    /// Rename the temporary file to the configuration file.
    MoveTempToConfig,
    /// Rename the backup file to the configuration file; its failure is ignored.
    PutBackupBack,
    /// Remove the backup file; its failure is ignored.
    DiscardBackup,
    /// Remove the temporary file; its failure is ignored.
    DiscardTemp,
    /// Nothing more to do: the write (or recovery) succeeded, or it failed with the error of
    /// the last operation whose failure is not ignored.
    Finish(bool),
}

/// Where a configuration write stands: the operation it waits to hear about.
#[derive(Clone, Copy, Debug, PartialEq, Eq)]
pub enum WritePhase {
    CheckDir,
    CreateDir,
    CheckBackup,
    CheckConfigForRecovery,
    RemoveBackup,
    RestoreBackup,
    WriteTemp,
    ReadMode,
    SetMode(u32),
    CheckExisting,
    MoveExisting,
    MoveTemp,
    PutBackupBack,
    DiscardBackup,
    DiscardTemp,
    Done(bool),
}

/// A configuration write (or a recovery alone) in progress.
#[derive(Clone, Copy, Debug, PartialEq, Eq)]
pub struct ConfigWrite {
    pub phase: WritePhase,
    /// Whether the category is `account`, whose file stays readable by everyone.
    pub account: bool,
    /// Whether only the recovery of an interrupted write is wanted.
    pub recover_only: bool,
    /// Whether a configuration file existed when the new one was put in place.
    pub had_existing: bool,
}

/// The operation that a write waits to hear about in phase `p`.
pub open spec fn action_of(p: WritePhase) -> FsAction {
    match p {
        WritePhase::CheckDir => FsAction::CheckCategoryDir,
        WritePhase::CreateDir => FsAction::CreateCategoryDir,
        WritePhase::CheckBackup => FsAction::CheckBackup,
        WritePhase::CheckConfigForRecovery => FsAction::CheckConfig,
        WritePhase::RemoveBackup => FsAction::RemoveBackup,
        WritePhase::RestoreBackup => FsAction::RestoreBackup,
        WritePhase::WriteTemp => FsAction::WriteTemp,
        WritePhase::ReadMode => FsAction::ReadConfigMode,
        WritePhase::SetMode(m) => FsAction::SetTempMode(m),
        WritePhase::CheckExisting => FsAction::CheckConfig,
        WritePhase::MoveExisting => FsAction::MoveConfigToBackup,
        WritePhase::MoveTemp => FsAction::MoveTempToConfig,
        WritePhase::PutBackupBack => FsAction::PutBackupBack,
        WritePhase::DiscardBackup => FsAction::DiscardBackup,
        WritePhase::DiscardTemp => FsAction::DiscardTemp,
        WritePhase::Done(ok) => FsAction::Finish(ok),
    }
}

/// The permission bits of a new configuration file: those of the file it replaces, else
/// `rw-r--r--`; a file of the category `account` is in addition readable by everyone.
pub open spec fn new_file_mode(existing: Option<u32>, account: bool) -> u32 {
    let base: u32 = match existing {
        Some(m) => m & 0o777u32,
        None => 0o644u32,
    };
    if account {
        base | 0o444u32
    } else {
        base
    }
}

/// The phase after the recovery of an interrupted write completed.
pub open spec fn after_recovery(w: ConfigWrite) -> WritePhase {
    if w.recover_only {
        WritePhase::Done(true)
    } else {
        WritePhase::WriteTemp
    }
}

/// The write after it heard that its pending operation went as `ok` says (for a check: the
/// thing exists), with `mode` the permission bits read, where the operation reads them.
pub open spec fn next_write(w: ConfigWrite, ok: bool, mode: Option<u32>) -> ConfigWrite {
    match w.phase {
        WritePhase::CheckDir => ConfigWrite {
            phase: if ok { WritePhase::CheckBackup } else { WritePhase::CreateDir },
            ..w
        },
        WritePhase::CreateDir => ConfigWrite {
            phase: if ok { WritePhase::CheckBackup } else { WritePhase::Done(false) },
            ..w
        },
        WritePhase::CheckBackup => ConfigWrite {
            phase: if ok { WritePhase::CheckConfigForRecovery } else { after_recovery(w) },
            ..w
        },
        WritePhase::CheckConfigForRecovery => ConfigWrite {
            phase: if ok { WritePhase::RemoveBackup } else { WritePhase::RestoreBackup },
            ..w
        },
        WritePhase::RemoveBackup | WritePhase::RestoreBackup => ConfigWrite {
            phase: if ok { after_recovery(w) } else { WritePhase::Done(false) },
            ..w
        },
        WritePhase::WriteTemp => ConfigWrite {
            phase: if ok { WritePhase::ReadMode } else { WritePhase::DiscardTemp },
            ..w
        },
        WritePhase::ReadMode => ConfigWrite {
            phase: WritePhase::SetMode(new_file_mode(mode, w.account)),
            ..w
        },
        WritePhase::SetMode(_) => ConfigWrite {
            phase: if ok { WritePhase::CheckExisting } else { WritePhase::DiscardTemp },
            ..w
        },
        WritePhase::CheckExisting => ConfigWrite {
            phase: if ok { WritePhase::MoveExisting } else { WritePhase::MoveTemp },
            had_existing: ok,
            ..w
        },
        WritePhase::MoveExisting => ConfigWrite {
            phase: if ok { WritePhase::MoveTemp } else { WritePhase::DiscardTemp },
            ..w
        },
        WritePhase::MoveTemp => ConfigWrite {
            phase: if ok {
                if w.had_existing { WritePhase::DiscardBackup } else { WritePhase::Done(true) }
            } else if w.had_existing {
                WritePhase::PutBackupBack
            } else {
                WritePhase::DiscardTemp
            },
            ..w
        },
        WritePhase::PutBackupBack => ConfigWrite { phase: WritePhase::DiscardTemp, ..w },
        WritePhase::DiscardBackup => ConfigWrite { phase: WritePhase::Done(true), ..w },
        WritePhase::DiscardTemp => ConfigWrite { phase: WritePhase::Done(false), ..w },
        WritePhase::Done(_) => w,
    }
}

/// The permission bits of a new configuration file: those of the file it replaces, else
/// `rw-r--r--`; a file of the category `account` is in addition readable by everyone.
pub fn config_file_mode(existing: Option<u32>, account: bool) -> (mode: u32)
    ensures
        mode == new_file_mode(existing, account),
{
    let base: u32 = match existing {
        Some(m) => m & 0o777u32,
        None => 0o644u32,
    };
    if account {
        base | 0o444u32
    } else {
        base
    }
}

/// Writing the configuration file of `category`: the write starts by checking that the
/// category directory exists, then recovers an interrupted earlier write, then puts the
/// new text in place through a temporary file and a backup of the previous file.
pub fn write_config(category: &str) -> (w: ConfigWrite)
    ensures
        w == (ConfigWrite {
            phase: WritePhase::CheckDir,
            account: category@ == "account"@,
            recover_only: false,
            had_existing: false,
        }),
{
    let account = crate::values::text_is(category, "account");
    ConfigWrite { phase: WritePhase::CheckDir, account, recover_only: false, had_existing: false }
}

/// Recovering an interrupted write of a configuration file: a backup left behind is
/// removed when the configuration file exists, and put back in its place otherwise.
pub fn recover_config() -> (w: ConfigWrite)
    ensures
        w == (ConfigWrite {
            phase: WritePhase::CheckBackup,
            account: false,
            recover_only: true,
            had_existing: false,
        }),
{
    ConfigWrite { phase: WritePhase::CheckBackup, account: false, recover_only: true, had_existing: false }
}

impl ConfigWrite {
    /// The operation the write waits to hear about.
    pub fn action(&self) -> (a: FsAction)
        ensures
            a == action_of(self.phase),
    {
        match self.phase {
            WritePhase::CheckDir => FsAction::CheckCategoryDir,
            WritePhase::CreateDir => FsAction::CreateCategoryDir,
            WritePhase::CheckBackup => FsAction::CheckBackup,
            WritePhase::CheckConfigForRecovery => FsAction::CheckConfig,
            WritePhase::RemoveBackup => FsAction::RemoveBackup,
            WritePhase::RestoreBackup => FsAction::RestoreBackup,
            WritePhase::WriteTemp => FsAction::WriteTemp,
            WritePhase::ReadMode => FsAction::ReadConfigMode,
            WritePhase::SetMode(m) => FsAction::SetTempMode(m),
            WritePhase::CheckExisting => FsAction::CheckConfig,
            WritePhase::MoveExisting => FsAction::MoveConfigToBackup,
            WritePhase::MoveTemp => FsAction::MoveTempToConfig,
            WritePhase::PutBackupBack => FsAction::PutBackupBack,
            WritePhase::DiscardBackup => FsAction::DiscardBackup,
            WritePhase::DiscardTemp => FsAction::DiscardTemp,
            WritePhase::Done(ok) => FsAction::Finish(ok),
        }
    }

    /// Hears how the pending operation went (`ok`: it succeeded, or for a check, the thing
    /// exists; `mode`: the permission bits read) and returns the next operation.
    pub fn advance(&mut self, ok: bool, mode: Option<u32>) -> (a: FsAction)
        ensures
            *final(self) == next_write(*old(self), ok, mode),
            a == action_of(final(self).phase),
    {
        let after = if self.recover_only {
            WritePhase::Done(true)
        } else {
            WritePhase::WriteTemp
        };
        self.phase = match self.phase {
            WritePhase::CheckDir => if ok { WritePhase::CheckBackup } else { WritePhase::CreateDir },
            WritePhase::CreateDir => if ok { WritePhase::CheckBackup } else { WritePhase::Done(false) },
            WritePhase::CheckBackup => if ok { WritePhase::CheckConfigForRecovery } else { after },
            WritePhase::CheckConfigForRecovery => if ok {
                WritePhase::RemoveBackup
            } else {
                WritePhase::RestoreBackup
            },
            WritePhase::RemoveBackup | WritePhase::RestoreBackup => if ok {
                after
            } else {
                WritePhase::Done(false)
            },
            WritePhase::WriteTemp => if ok { WritePhase::ReadMode } else { WritePhase::DiscardTemp },
            WritePhase::ReadMode => WritePhase::SetMode(config_file_mode(mode, self.account)),
            WritePhase::SetMode(_) => if ok { WritePhase::CheckExisting } else { WritePhase::DiscardTemp },
            WritePhase::CheckExisting => {
                self.had_existing = ok;
                if ok {
                    WritePhase::MoveExisting
                } else {
                    WritePhase::MoveTemp
                }
            },
            WritePhase::MoveExisting => if ok { WritePhase::MoveTemp } else { WritePhase::DiscardTemp },
            WritePhase::MoveTemp => if ok {
                if self.had_existing {
                    WritePhase::DiscardBackup
                } else {
                    WritePhase::Done(true)
                }
            } else if self.had_existing {
                WritePhase::PutBackupBack
            } else {
                WritePhase::DiscardTemp
            },
            WritePhase::PutBackupBack => WritePhase::DiscardTemp,
            WritePhase::DiscardBackup => WritePhase::Done(true),
            WritePhase::DiscardTemp => WritePhase::Done(false),
            WritePhase::Done(ok) => WritePhase::Done(ok),
        };
        self.action()
    }
}

/// The files of a configuration category as a write sees them: whether the category
/// directory exists, and the texts of the configuration file, its backup and the temporary file.
pub struct CategoryFiles {
    pub dir: bool,
    pub config: Option<Seq<u8>>,
    pub backup: Option<Seq<u8>>,
    pub temp: Option<Seq<u8>>,
}

/// Whether `ok` is a true report of the operation `a` on the files `f`, which leaves the
/// files `g`, when `new` is the text being written. A failed operation changes nothing,
/// except that a failed creation of the temporary file may leave any temporary file.
pub open spec fn performs(f: CategoryFiles, a: FsAction, ok: bool, new: Seq<u8>, g: CategoryFiles) -> bool {
    match a {
        FsAction::CheckCategoryDir => ok == f.dir && g == f,
        FsAction::CreateCategoryDir => if ok {
            g == CategoryFiles { dir: true, ..f }
        } else {
            g == f
        },
        FsAction::CheckBackup => ok == f.backup.is_some() && g == f,
        FsAction::CheckConfig => ok == f.config.is_some() && g == f,
        FsAction::RemoveBackup | FsAction::DiscardBackup => if ok {
            g == CategoryFiles { backup: None, ..f }
        } else {
            g == f
        },
        FsAction::RestoreBackup | FsAction::PutBackupBack => if ok {
            f.backup.is_some() && g == CategoryFiles { config: f.backup, backup: None, ..f }
        } else {
            g == f
        },
        FsAction::WriteTemp => if ok {
            g == CategoryFiles { temp: Some(new), ..f }
        } else {
            g.dir == f.dir && g.config == f.config && g.backup == f.backup
        },
        FsAction::MoveConfigToBackup => if ok {
            f.config.is_some() && g == CategoryFiles { config: None, backup: f.config, ..f }
        } else {
            g == f
        },
        FsAction::MoveTempToConfig => if ok {
            f.temp.is_some() && g == CategoryFiles { config: f.temp, temp: None, ..f }
        } else {
            g == f
        },
        FsAction::DiscardTemp => if ok {
            g == CategoryFiles { temp: None, ..f }
        } else {
            g == f
        },
        FsAction::ReadConfigMode | FsAction::SetTempMode(_) | FsAction::Finish(_) => g == f,
    }
}

/// The text that the files `orig` hold for the category once an interrupted write is
/// recovered: the configuration file if it exists, else its backup.
pub open spec fn kept_text(orig: CategoryFiles) -> Option<Seq<u8>> {
    if orig.config.is_some() {
        orig.config
    } else {
        orig.backup
    }
}

/// Whether the files `f` still hold the text `kept`: in the configuration file, or, when
/// that is missing, in the backup that the next recovery puts back.
pub open spec fn holds_text(f: CategoryFiles, kept: Option<Seq<u8>>) -> bool {
    f.config == kept || (f.config.is_none() && f.backup == kept)
}

/// What holds of the files `f` while the write `w` of the text `new` runs over files that
/// were `orig` when it started.
pub open spec fn write_invariant(w: ConfigWrite, f: CategoryFiles, orig: CategoryFiles, new: Seq<u8>) -> bool {
    let kept = kept_text(orig);
    &&& w.recover_only ==> f.temp == orig.temp && f.dir == orig.dir
    &&& match w.phase {
        WritePhase::CheckDir | WritePhase::CreateDir => !w.recover_only && f.config == orig.config
            && f.backup == orig.backup,
        WritePhase::CheckBackup => f.config == orig.config && f.backup == orig.backup,
        WritePhase::CheckConfigForRecovery => f.config == orig.config && f.backup == orig.backup
            && f.backup.is_some(),
        WritePhase::RemoveBackup => f.config == orig.config && f.config.is_some() && f.backup
            == orig.backup,
        WritePhase::RestoreBackup => f.config.is_none() && orig.config.is_none() && f.backup
            == orig.backup && f.backup.is_some(),
        WritePhase::WriteTemp => !w.recover_only && f.config == kept && f.backup.is_none(),
        WritePhase::ReadMode | WritePhase::SetMode(_) | WritePhase::CheckExisting => !w.recover_only
            && f.config == kept && f.backup.is_none() && f.temp == Some(new),
        WritePhase::MoveExisting => !w.recover_only && f.config == kept && f.config.is_some()
            && f.backup.is_none() && f.temp == Some(new) && w.had_existing,
        WritePhase::MoveTemp => !w.recover_only && f.temp == Some(new) && f.config.is_none() && (if w.had_existing {
            f.backup == kept && kept.is_some()
        } else {
            kept.is_none() && f.backup.is_none()
        }),
        WritePhase::PutBackupBack => !w.recover_only && f.config.is_none() && f.backup == kept,
        WritePhase::DiscardBackup => !w.recover_only && f.config == Some(new) && f.temp.is_none() && f.backup
            == kept,
        WritePhase::DiscardTemp => !w.recover_only && holds_text(f, kept),
        WritePhase::Done(ok) => if ok {
            if w.recover_only {
                f.config == kept && f.backup.is_none()
            } else {
                f.config == Some(new) && f.temp.is_none() && (f.backup.is_none() || f.backup == kept)
            }
        } else {
            holds_text(f, kept)
        },
    }
}

/// A write starts, over any files, in a state its invariant describes; so does a recovery.
pub proof fn lemma_write_starts(category: Seq<char>, f: CategoryFiles, new: Seq<u8>)
    ensures
        write_invariant(
            ConfigWrite {
                phase: WritePhase::CheckDir,
                account: category == "account"@,
                recover_only: false,
                had_existing: false,
            },
            f,
            f,
            new,
        ),
        write_invariant(
            ConfigWrite { phase: WritePhase::CheckBackup, account: false, recover_only: true, had_existing: false },
            f,
            f,
            new,
        ),
{
}

/// Each operation that goes as reported keeps the invariant of a write.
pub proof fn lemma_write_step(
    w: ConfigWrite,
    f: CategoryFiles,
    g: CategoryFiles,
    ok: bool,
    mode: Option<u32>,
    orig: CategoryFiles,
    new: Seq<u8>,
)
    requires
        write_invariant(w, f, orig, new),
        performs(f, action_of(w.phase), ok, new, g),
    ensures
        write_invariant(next_write(w, ok, mode), g, orig, new),
{
}

/// Whatever fails, writing a configuration file never loses its previous text: at every
/// step the new text is in place, or the previous text is in the configuration file or in
/// the backup that the next recovery puts back. A write that succeeds leaves the new text
/// in the configuration file; a recovery that succeeds leaves the previous text there and
/// no backup.
pub proof fn lemma_write_keeps_previous_text(w: ConfigWrite, f: CategoryFiles, orig: CategoryFiles, new: Seq<u8>)
    requires
        write_invariant(w, f, orig, new),
    ensures
        holds_text(f, kept_text(orig)) || f.config == Some(new) || (f.config == orig.config && f.backup
            == orig.backup),
        w.phase == WritePhase::Done(false) ==> holds_text(f, kept_text(orig)),
        w.phase == WritePhase::Done(true) && !w.recover_only ==> f.config == Some(new) && f.temp.is_none() && (
        f.backup.is_none() || f.backup == kept_text(orig)),
        w.phase == WritePhase::Done(true) && w.recover_only ==> f.config == kept_text(orig)
            && f.backup.is_none(),
{
}

/// How far a write is from its end.
pub open spec fn steps_left(p: WritePhase) -> nat {
    match p {
        WritePhase::CheckDir => 15,
        WritePhase::CreateDir => 14,
        WritePhase::CheckBackup => 13,
        WritePhase::CheckConfigForRecovery => 12,
        WritePhase::RemoveBackup | WritePhase::RestoreBackup => 11,
        WritePhase::WriteTemp => 10,
        WritePhase::ReadMode => 9,
        WritePhase::SetMode(_) => 8,
        WritePhase::CheckExisting => 7,
        WritePhase::MoveExisting => 6,
        WritePhase::MoveTemp => 5,
        WritePhase::PutBackupBack => 4,
        WritePhase::DiscardBackup => 3,
        WritePhase::DiscardTemp => 2,
        WritePhase::Done(_) => 0,
    }
}

/// Every operation brings a write closer to its end, so that a write finishes after at
/// most fifteen operations whatever they report; a finished write stays finished.
pub proof fn lemma_write_finishes(w: ConfigWrite, ok: bool, mode: Option<u32>)
    ensures
        !(w.phase is Done) ==> steps_left(next_write(w, ok, mode).phase) < steps_left(w.phase),
        w.phase is Done ==> next_write(w, ok, mode) == w,
{
}

/// A recovery that succeeds leaves no backup behind: where the configuration file existed
/// it is unchanged, otherwise it holds what the backup held; the category directory and
/// the temporary file are untouched.
pub proof fn lemma_recovery_outcome(w: ConfigWrite, f: CategoryFiles, orig: CategoryFiles, new: Seq<u8>)
    requires
        write_invariant(w, f, orig, new),
        w.recover_only,
        w.phase == WritePhase::Done(true),
    ensures
        f.backup.is_none(),
        orig.config.is_some() ==> f.config == orig.config,
        orig.config.is_none() ==> f.config == orig.backup,
        f.temp == orig.temp,
        f.dir == orig.dir,
{
}

/// A recovery of files that hold no backup succeeds at once and changes nothing; since a
/// recovery that succeeds leaves no backup, recovering twice is the same as recovering once.
pub proof fn lemma_recovery_idempotent(f: CategoryFiles, ok: bool, g: CategoryFiles, new: Seq<u8>, mode: Option<u32>)
    requires
        f.backup.is_none(),
        performs(f, FsAction::CheckBackup, ok, new, g),
    ensures
        g == f,
        next_write(
            ConfigWrite { phase: WritePhase::CheckBackup, account: false, recover_only: true, had_existing: false },
            ok,
            mode,
        ).phase == WritePhase::Done(true),
{
}

} // verus!
