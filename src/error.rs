//! The error taxonomy and its mapping to process exit codes.

use vstd::prelude::*;

verus! {

/// An error of any part of the library.
#[derive(Debug, Clone)]
pub enum TimevaultError {
    /// A miscellaneous failure, described in words.
    Message(String),
    /// A failure concerning a backup disk.
    Disk(DiskError),
    /// A failure of the configuration.
    Config(ConfigError),
    /// A failure of the operating system, with the path or program concerned.
    Io(String),
}

/// A configuration error.
#[derive(Debug, Clone)]
pub enum ConfigError {
    /// The file is not well-formed.
    Parse(String),
    /// The file is well-formed but breaks a rule of the catalog.
    Invalid(String),
}

/// A disk error: a closed set, so that each kind maps to one exit code.
#[derive(Debug, Clone)]
pub enum DiskError {
    NoDiskConnected,
    MultipleDisksConnected,
    IdentityMismatch(String),
    DiskNotEmpty(String),
    MountFailure(String),
    UmountFailure(String),
    Other(String),
}

/// The exit code of a disk error.
pub open spec fn disk_exit_code(e: DiskError) -> i32 {
    match e {
        DiskError::NoDiskConnected => 10,
        DiskError::MultipleDisksConnected => 11,
        DiskError::IdentityMismatch(_) => 12,
        DiskError::DiskNotEmpty(_) => 13,
        DiskError::MountFailure(_) => 14,
        DiskError::UmountFailure(_) => 14,
        DiskError::Other(_) => 2,
    }
}

/// The exit code of any error: disk errors by kind, all others 2.
pub open spec fn error_exit_code(e: TimevaultError) -> i32 {
    match e {
        TimevaultError::Disk(d) => disk_exit_code(d),
        _ => 2,
    }
}

/// The one-line text of a disk error.
pub open spec fn disk_error_text(e: DiskError) -> Seq<char> {
    match e {
        DiskError::NoDiskConnected => "no enrolled backup disk connected"@,
        DiskError::MultipleDisksConnected => "multiple enrolled backup disks connected; specify --disk-id"@,
        DiskError::IdentityMismatch(d) => "identity "@ + d@,
        DiskError::DiskNotEmpty(d) => "disk not empty; unexpected entries: "@ + d@
            + " (use --force to override)"@,
        DiskError::MountFailure(d) => "mount "@ + d@,
        DiskError::UmountFailure(d) => "umount "@ + d@,
        DiskError::Other(d) => d@,
    }
}

/// The one-line text of a configuration error.
pub open spec fn config_error_text(e: ConfigError) -> Seq<char> {
    match e {
        ConfigError::Parse(d) => "parse config: "@ + d@,
        ConfigError::Invalid(d) => d@,
    }
}

/// The one-line text of any error.
pub open spec fn error_text(e: TimevaultError) -> Seq<char> {
    match e {
        TimevaultError::Message(d) => d@,
        TimevaultError::Disk(d) => disk_error_text(d),
        TimevaultError::Config(c) => config_error_text(c),
        TimevaultError::Io(d) => d@,
    }
}

impl DiskError {
    /// The exit code under which the program ends on this error.
    pub fn exit_code(&self) -> (r: i32)
        ensures
            r == disk_exit_code(*self),
    {
        match self {
            DiskError::NoDiskConnected => 10,
            DiskError::MultipleDisksConnected => 11,
            DiskError::IdentityMismatch(_) => 12,
            DiskError::DiskNotEmpty(_) => 13,
            DiskError::MountFailure(_) => 14,
            DiskError::UmountFailure(_) => 14,
            DiskError::Other(_) => 2,
        }
    }

    /// The one-line text shown for this error.
    pub fn describe(&self) -> (r: String)
        ensures
            r@ == disk_error_text(*self),
    {
        match self {
            DiskError::NoDiskConnected => String::from_str("no enrolled backup disk connected"),
            DiskError::MultipleDisksConnected => String::from_str(
                "multiple enrolled backup disks connected; specify --disk-id",
            ),
            DiskError::IdentityMismatch(d) => crate::text::concat_str("identity ", d.as_str()),
            DiskError::DiskNotEmpty(d) => {
                let mut s = crate::text::concat_str("disk not empty; unexpected entries: ", d.as_str());
                s.append(" (use --force to override)");
                assert(s@ =~= disk_error_text(*self));
                s
            },
            DiskError::MountFailure(d) => crate::text::concat_str("mount ", d.as_str()),
            DiskError::UmountFailure(d) => crate::text::concat_str("umount ", d.as_str()),
            DiskError::Other(d) => d.clone(),
        }
    }
}

impl ConfigError {
    /// The one-line text shown for this error.
    pub fn describe(&self) -> (r: String)
        ensures
            r@ == config_error_text(*self),
    {
        match self {
            ConfigError::Parse(d) => crate::text::concat_str("parse config: ", d.as_str()),
            ConfigError::Invalid(d) => d.clone(),
        }
    }
}

impl TimevaultError {
    /// A miscellaneous error with the given text.
    pub fn message(msg: String) -> (r: Self)
        ensures
            r == TimevaultError::Message(msg),
    {
        TimevaultError::Message(msg)
    }

    /// The exit code under which the program ends on this error.
    pub fn exit_code(&self) -> (r: i32)
        ensures
            r == error_exit_code(*self),
    {
        match self {
            TimevaultError::Disk(d) => d.exit_code(),
            _ => 2,
        }
    }

    /// The one-line text shown for this error.
    pub fn describe(&self) -> (r: String)
        ensures
            r@ == error_text(*self),
    {
        match self {
            TimevaultError::Message(d) => d.clone(),
            TimevaultError::Disk(d) => d.describe(),
            TimevaultError::Config(c) => c.describe(),
            TimevaultError::Io(d) => d.clone(),
        }
    }
}

impl From<DiskError> for TimevaultError {
    fn from(err: DiskError) -> (r: Self)
        ensures
            r == TimevaultError::Disk(err),
    {
        TimevaultError::Disk(err)
    }
}

impl vstd::std_specs::convert::FromSpecImpl<DiskError> for TimevaultError {
    open spec fn obeys_from_spec() -> bool {
        true
    }

    open spec fn from_spec(err: DiskError) -> Self {
        TimevaultError::Disk(err)
    }
}

impl From<ConfigError> for TimevaultError {
    fn from(err: ConfigError) -> (r: Self)
        ensures
            r == TimevaultError::Config(err),
    {
        TimevaultError::Config(err)
    }
}

impl vstd::std_specs::convert::FromSpecImpl<ConfigError> for TimevaultError {
    open spec fn obeys_from_spec() -> bool {
        true
    }

    open spec fn from_spec(err: ConfigError) -> Self {
        TimevaultError::Config(err)
    }
}

} // verus!
