//! The metrics snapshot: one fully-populated read of all system metrics,
//! built fresh each cycle and discarded after the frame is planned.
//!
//! Host identity fields and the core count may be reported absent by the
//! provider; absence is a hard failure of the build, never a blank field.

use vstd::prelude::*;

verus! {

/// One process as the provider reports it: identifier, display name, and
/// resident memory in bytes.
pub struct ProcessInfo {
    pub pid: u32,
    pub name: String,
    pub memory: u64,
}

/// One full read of the host's metrics. CPU usage is carried in hundredths
/// of a percent and may exceed 100% transiently on multi-core bursts.
pub struct Snapshot {
    pub os_name: String,
    pub host_name: String,
    pub os_version: String,
    pub kernel_version: String,
    pub core_count: u64,
    pub total_memory: u64,
    pub used_memory: u64,
    pub cpu_centi_percent: u32,
    pub processes: Vec<ProcessInfo>,
}

/// Which required field the provider failed to report.
#[derive(Clone, Copy, PartialEq, Eq, Structural, Debug)]
pub enum SnapshotError {
    MissingOsName,
    MissingHostName,
    MissingOsVersion,
    MissingKernelVersion,
    MissingCoreCount,
}

impl Snapshot {
    /// The provider's documented invariant: used memory never exceeds the
    /// total. It is assumed, not derived, and callers of the renderer must
    /// hold it.
    pub open spec fn wf(self) -> bool {
        self.used_memory <= self.total_memory
    }

    /// Build a snapshot from what the provider returned. Every identity
    /// field is required: the first absent one (checked in display order)
    /// fails the build, and success is owed exactly when all are present.
    pub fn new(
        os_name: Option<String>,
        host_name: Option<String>,
        os_version: Option<String>,
        kernel_version: Option<String>,
        core_count: Option<u64>,
        total_memory: u64,
        used_memory: u64,
        cpu_centi_percent: u32,
        processes: Vec<ProcessInfo>,
    ) -> (r: Result<Snapshot, SnapshotError>)
        ensures
            (r is Ok) <==> (os_name is Some && host_name is Some && os_version is Some
                && kernel_version is Some && core_count is Some),
            os_name is None ==> r == Err::<Snapshot, SnapshotError>(SnapshotError::MissingOsName),
            os_name is Some && host_name is None ==> r == Err::<Snapshot, SnapshotError>(
                SnapshotError::MissingHostName,
            ),
            os_name is Some && host_name is Some && os_version is None ==> r == Err::<
                Snapshot,
                SnapshotError,
            >(SnapshotError::MissingOsVersion),
            os_name is Some && host_name is Some && os_version is Some && kernel_version is None
                ==> r == Err::<Snapshot, SnapshotError>(SnapshotError::MissingKernelVersion),
            os_name is Some && host_name is Some && os_version is Some && kernel_version is Some
                && core_count is None ==> r == Err::<Snapshot, SnapshotError>(
                SnapshotError::MissingCoreCount,
            ),
            r matches Ok(s) ==> s == (Snapshot {
                os_name: os_name.unwrap(),
                host_name: host_name.unwrap(),
                os_version: os_version.unwrap(),
                kernel_version: kernel_version.unwrap(),
                core_count: core_count.unwrap(),
                total_memory,
                used_memory,
                cpu_centi_percent,
                processes,
            }),
    {
        let os_name = match os_name {
            Some(v) => v,
            None => {
                return Err(SnapshotError::MissingOsName);
            },
        };
        let host_name = match host_name {
            Some(v) => v,
            None => {
                return Err(SnapshotError::MissingHostName);
            },
        };
        let os_version = match os_version {
            Some(v) => v,
            None => {
                return Err(SnapshotError::MissingOsVersion);
            },
        };
        let kernel_version = match kernel_version {
            Some(v) => v,
            None => {
                return Err(SnapshotError::MissingKernelVersion);
            },
        };
        let core_count = match core_count {
            Some(v) => v,
            None => {
                return Err(SnapshotError::MissingCoreCount);
            },
        };
        Ok(
            Snapshot {
                os_name,
                host_name,
                os_version,
                kernel_version,
                core_count,
                total_memory,
                used_memory,
                cpu_centi_percent,
                processes,
            },
        )
    }
}

} // verus!
