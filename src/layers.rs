//! Composition of an instance's root filesystem through a layer manager: a
//! capability (an overlay, a bind mount, a copy-on-write filesystem) that
//! reports and changes what is mounted at a target.

use crate::path::{join_path, joined};
use vstd::prelude::*;

verus! {

/// Why a layer operation failed.
#[derive(Debug, PartialEq, Eq, Clone, Copy)]
pub enum LayerError {
    /// Something else is already mounted at the target.
    AlreadyMountedDifferent,
    /// A layer the composition needs does not exist.
    MissingLayer,
    /// The target is in use.
    Busy,
    /// The operation needs the target unmounted.
    Mounted,
    /// The host reported an I/O error.
    Io,
}

/// A backend that composes instance roots. Its spec functions say, for the
/// backend's current state, what each operation reports for a target.
pub trait LayerManager {
    /// What `is_mounted` reports for `target`: whether the composed root is
    /// mounted there, or why that could not be read.
    spec fn mount_state(&self, target: Seq<char>) -> Result<bool, LayerError>;

    /// What `mount` returns for `target`.
    spec fn mount_outcome(&self, target: Seq<char>) -> Result<(), LayerError>;

    /// What `unmount` returns for `target`.
    spec fn unmount_outcome(&self, target: Seq<char>) -> Result<(), LayerError>;

    /// Whether the composed root is mounted at `target`, as the host's mount
    /// table shows it.
    fn is_mounted(&self, target: &str) -> (r: Result<bool, LayerError>)
        ensures
            r == self.mount_state(target@),
    ;

    /// Mounts the composed root at `target`, creating the directory where
    /// missing.
    fn mount(&mut self, target: &str) -> (r: Result<(), LayerError>)
        ensures
            r == old(self).mount_outcome(target@),
            r is Ok ==> final(self).mount_state(target@) == Ok::<bool, LayerError>(true),
    ;

    /// Unmounts whatever root is mounted at `target`.
    fn unmount(&mut self, target: &str) -> (r: Result<(), LayerError>)
        ensures
            r == old(self).unmount_outcome(target@),
            r is Ok ==> final(self).mount_state(target@) == Ok::<bool, LayerError>(false),
    ;
}

/// Mount the filesystem layers of instance `name`, under `current_dir`,
/// unless they already are. Mounting is idempotent: where the root is already
/// mounted, this succeeds and nothing changes. A failure to read the mount
/// state is returned without mounting.
pub fn mount_layers<M: LayerManager>(manager: &mut M, current_dir: &str, name: &str) -> (r: Result<
    (),
    LayerError,
>)
    ensures
        ({
            let t = joined(current_dir@, name@);
            match old(manager).mount_state(t) {
                Err(e) => r == Err::<(), LayerError>(e) && *final(manager) == *old(manager),
                Ok(true) => r == Ok::<(), LayerError>(()) && *final(manager) == *old(manager),
                Ok(false) => r == old(manager).mount_outcome(t) && (r is Ok
                    ==> final(manager).mount_state(t) == Ok::<bool, LayerError>(true)),
            }
        }),
{
    let target = join_path(current_dir, name);
    match manager.is_mounted(target.as_str()) {
        Err(e) => Err(e),
        Ok(true) => Ok(()),
        Ok(false) => manager.mount(target.as_str()),
    }
}

/// Unmount the filesystem layers of instance `name`, under `current_dir`,
/// where they are mounted. Unmounting is idempotent: where nothing is mounted,
/// this succeeds and nothing changes. A failure to read the mount state is
/// returned without unmounting.
pub fn unmount_layers<M: LayerManager>(manager: &mut M, current_dir: &str, name: &str) -> (r:
    Result<(), LayerError>)
    ensures
        ({
            let t = joined(current_dir@, name@);
            match old(manager).mount_state(t) {
                Err(e) => r == Err::<(), LayerError>(e) && *final(manager) == *old(manager),
                Ok(false) => r == Ok::<(), LayerError>(()) && *final(manager) == *old(manager),
                Ok(true) => r == old(manager).unmount_outcome(t) && (r is Ok
                    ==> final(manager).mount_state(t) == Ok::<bool, LayerError>(false)),
            }
        }),
{
    let target = join_path(current_dir, name);
    match manager.is_mounted(target.as_str()) {
        Err(e) => Err(e),
        Ok(false) => Ok(()),
        Ok(true) => manager.unmount(target.as_str()),
    }
}

} // verus!
