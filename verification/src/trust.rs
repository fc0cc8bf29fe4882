use vstd::prelude::*;

use crate::errors::DauError;

verus! {

/// What the file system says of the configuration file: the numeric owner
/// and the mode bits.
#[derive(Clone, Copy, Debug, PartialEq, Eq, Structural)]
pub struct FileStat {
    pub uid: u32,
    pub mode: u32,
}

/// The two states in which the configuration file may be relied on.
#[derive(Clone, Copy, Debug, PartialEq, Eq, Structural)]
pub enum Trust {
    /// There is no file; the default policy applies.
    Absent,
    /// The file belongs to the super-user and is closed to others.
    Trusted,
}

impl FileStat {
    /// The owner is the super-user.
    pub open spec fn owned_by_super_user(self) -> bool {
        self.uid == 0
    }

    /// Others than the owner and the group may read the file.
    pub open spec fn world_readable(self) -> bool {
        self.mode & 0o004 != 0
    }

    /// Others than the owner and the group may write the file.
    pub open spec fn world_writable(self) -> bool {
        self.mode & 0o002 != 0
    }

    /// The group may write the file.
    pub open spec fn group_writable(self) -> bool {
        self.mode & 0o020 != 0
    }

    /// The file may be believed: it belongs to the super-user, nobody but
    /// the owner may write it, and others may not read it.
    pub open spec fn trusted(self) -> bool {
        &&& self.owned_by_super_user()
        &&& !self.world_readable()
        &&& !self.world_writable()
        &&& !self.group_writable()
    }
}

/// Whether a process with that effective user may switch identity at all.
pub open spec fn privilege_of(euid: u32) -> Result<(), DauError> {
    if euid == 0 {
        Ok(())
    } else {
        Err(DauError::NotSetUIDRoot)
    }
}

/// How far a configuration file in that state may be relied on. `None` is
/// a file that does not exist.
pub open spec fn trust_of(stat: Option<FileStat>) -> Result<Trust, DauError> {
    match stat {
        None => Ok(Trust::Absent),
        Some(stat) => if stat.trusted() {
            Ok(Trust::Trusted)
        } else {
            Err(DauError::InvalidConfigfilePermissions)
        },
    }
}

/// Refuses a process whose effective user is not the super-user.
pub fn validate_privilege(euid: u32) -> (r: Result<(), DauError>)
    ensures
        r == privilege_of(euid),
{
    if euid == 0 {
        Ok(())
    } else {
        Err(DauError::NotSetUIDRoot)
    }
}

/// Judges the configuration file by its owner and mode, before anything
/// is read from it.
pub fn verify_trust(stat: Option<FileStat>) -> (r: Result<Trust, DauError>)
    ensures
        r == trust_of(stat),
{
    match stat {
        None => Ok(Trust::Absent),
        Some(stat) => {
            if stat.uid != 0 || stat.mode & 0o004 != 0 || stat.mode & 0o002 != 0 || stat.mode
                & 0o020 != 0 {
                Err(DauError::InvalidConfigfilePermissions)
            } else {
                Ok(Trust::Trusted)
            }
        },
    }
}

/// Whether the configuration file, if there is one, may be believed.
pub fn check_perms(stat: Option<FileStat>) -> (ok: bool)
    ensures
        ok == (trust_of(stat) is Ok),
        ok == (stat matches Some(s) ==> s.trusted()),
{
    verify_trust(stat).is_ok()
}

} // verus!
