use mochios_settings::config_write::{config_file_mode, recover_config, write_config, ConfigWrite, FsAction};

/// The files of one category, simulated.
struct Files {
    dir: bool,
    config: Option<(Vec<u8>, u32)>,
    backup: Option<(Vec<u8>, u32)>,
    temp: Option<(Vec<u8>, u32)>,
    dir_creatable: bool,
    log: Vec<FsAction>,
}

impl Files {
    fn new() -> Files {
        Files { dir: true, config: None, backup: None, temp: None, dir_creatable: true, log: Vec::new() }
    }

    /// Runs a write or recovery to its end; tells whether it succeeded.
    fn run(&mut self, mut w: ConfigWrite, contents: &[u8]) -> bool {
        let mut action = w.action();
        loop {
            self.log.push(action);
            let (ok, mode) = match action {
                FsAction::CheckCategoryDir => (self.dir, None),
                FsAction::CreateCategoryDir => {
                    if self.dir_creatable {
                        self.dir = true;
                    }
                    (self.dir_creatable, None)
                }
                FsAction::CheckBackup => (self.backup.is_some(), None),
                FsAction::CheckConfig => (self.config.is_some(), None),
                FsAction::RemoveBackup | FsAction::DiscardBackup => (self.backup.take().is_some(), None),
                FsAction::RestoreBackup | FsAction::PutBackupBack => match self.backup.take() {
                    Some(b) => {
                        self.config = Some(b);
                        (true, None)
                    }
                    None => (false, None),
                },
                FsAction::WriteTemp => {
                    if self.temp.is_some() {
                        (false, None)
                    } else {
                        self.temp = Some((contents.to_vec(), 0o600));
                        (true, None)
                    }
                }
                FsAction::ReadConfigMode => (true, self.config.as_ref().map(|c| c.1 | 0o100000)),
                FsAction::SetTempMode(m) => match self.temp.as_mut() {
                    Some(t) => {
                        t.1 = m;
                        (true, None)
                    }
                    None => (false, None),
                },
                FsAction::MoveConfigToBackup => match self.config.take() {
                    Some(c) => {
                        self.backup = Some(c);
                        (true, None)
                    }
                    None => (false, None),
                },
                FsAction::MoveTempToConfig => match self.temp.take() {
                    Some(t) => {
                        self.config = Some(t);
                        (true, None)
                    }
                    None => (false, None),
                },
                FsAction::DiscardTemp => (self.temp.take().is_some(), None),
                FsAction::Finish(ok) => return ok,
            };
            action = w.advance(ok, mode);
        }
    }
}

#[test]
fn replaces_read_only_config_file_without_truncating_it() {
    let mut files = Files::new();
    files.config = Some((b"diagnostics_consent=false\n".to_vec(), 0o444));
    assert!(files.run(write_config("diagnostics"), b"diagnostics_consent=true\n"));
    let config = files.config.clone().unwrap();
    assert_eq!(config.0, b"diagnostics_consent=true\n".to_vec());
    assert_eq!(config.1 & 0o777, 0o444);
    assert!(files.backup.is_none());
    assert!(files.temp.is_none());
}

#[test]
fn recovers_config_interrupted_between_backup_and_replace() {
    let mut files = Files::new();
    files.backup = Some((b"device_name=mochiOS\n".to_vec(), 0o644));
    assert!(files.run(recover_config(), b""));
    assert_eq!(files.config.clone().unwrap().0, b"device_name=mochiOS\n".to_vec());
    assert!(files.backup.is_none());
}

#[test]
fn writes_to_existing_category_without_creating_its_parent() {
    let mut files = Files::new();
    files.dir_creatable = false;
    assert!(files.run(write_config("general"), b"device_name=mochiOS\n"));
    assert_eq!(files.config.clone().unwrap().0, b"device_name=mochiOS\n".to_vec());
    assert!(!files.log.contains(&FsAction::CreateCategoryDir));
}

#[test]
fn missing_category_directory_is_created_or_the_write_fails() {
    let mut files = Files::new();
    files.dir = false;
    assert!(files.run(write_config("input"), b"x"));
    assert!(files.dir);
    let mut files = Files::new();
    files.dir = false;
    files.dir_creatable = false;
    assert!(!files.run(write_config("input"), b"x"));
    assert!(files.config.is_none());
}

#[test]
fn recovery_drops_a_stale_backup_when_the_config_exists() {
    let mut files = Files::new();
    files.config = Some((b"new\n".to_vec(), 0o644));
    files.backup = Some((b"old\n".to_vec(), 0o644));
    assert!(files.run(write_config("general"), b"newer\n"));
    assert_eq!(files.config.clone().unwrap().0, b"newer\n".to_vec());
    assert!(files.backup.is_none());
}

#[test]
fn a_leftover_temporary_file_fails_the_write_and_keeps_the_config() {
    let mut files = Files::new();
    files.config = Some((b"old\n".to_vec(), 0o640));
    files.temp = Some((b"junk".to_vec(), 0o600));
    assert!(!files.run(write_config("general"), b"new\n"));
    assert_eq!(files.config.clone().unwrap().0, b"old\n".to_vec());
}

#[test]
fn new_files_get_default_or_inherited_modes() {
    assert_eq!(config_file_mode(None, false), 0o644);
    assert_eq!(config_file_mode(Some(0o100600), false), 0o600);
    assert_eq!(config_file_mode(Some(0o600), true), 0o644);
    assert_eq!(config_file_mode(None, true), 0o644);
    let mut files = Files::new();
    files.config = Some((b"a\n".to_vec(), 0o600));
    assert!(files.run(write_config("account"), b"b\n"));
    assert_eq!(files.config.clone().unwrap().1, 0o644);
}
