//! The handle of the drive that is open.

use vstd::prelude::*;
use vstd::string::*;

use crate::errors::{CdReaderError, IoError};

verus! {

/// Place for the handle of the one drive that can be open at a time.
#[derive(Debug)]
pub struct DriveSlot<H> {
    /// The handle, while a drive is open.
    pub handle: Option<H>,
}

impl<H> DriveSlot<H> {
    /// The slot after an attempt to open a drive: with its handle, or as it was.
    pub open spec fn after_open(self, opened: Result<H, IoError>) -> DriveSlot<H> {
        match opened {
            Ok(handle) => DriveSlot { handle: Some(handle) },
            Err(_) => self,
        }
    }

    /// The slot after its drive was closed.
    pub open spec fn after_close(self) -> DriveSlot<H> {
        DriveSlot { handle: None }
    }

    /// The handle that commands go to, or why there is none.
    pub open spec fn target(self) -> Result<H, CdReaderError> {
        match self.handle {
            Some(handle) => Ok(handle),
            None => Err(CdReaderError::Io(IoError::DriveNotOpened)),
        }
    }

    /// A slot without an open drive.
    pub fn new() -> (slot: Self)
        ensures
            slot.handle is None,
    {
        DriveSlot { handle: None }
    }

    /// Refuses while a drive is open.
    pub fn ensure_closed(&self) -> (result: Result<(), IoError>)
        ensures
            match result {
                Ok(_) => self.handle is None,
                Err(err) => err == IoError::DriveAlreadyOpen && self.handle is Some,
            },
    {
        if self.handle.is_some() {
            return Err(IoError::DriveAlreadyOpen);
        }
        Ok(())
    }

    /// Takes in the outcome of opening a drive. A handle replaces the one that
    /// was there; a failure leaves the slot as it is.
    pub fn open(&mut self, opened: Result<H, IoError>) -> (result: Result<(), IoError>)
        ensures
            *final(self) == old(self).after_open(opened),
            match opened {
                Ok(_) => result is Ok,
                Err(err) => result == Err::<(), IoError>(err),
            },
    {
        match opened {
            Ok(handle) => {
                self.handle = Some(handle);
                Ok(())
            },
            Err(err) => Err(err),
        }
    }

    /// The handle to send a command to.
    pub fn get(&self) -> (result: Result<&H, CdReaderError>)
        ensures
            match self.target() {
                Ok(handle) => result matches Ok(given) && *given == handle,
                Err(err) => result matches Err(e) && e == err,
            },
    {
        match &self.handle {
            Some(handle) => Ok(handle),
            None => Err(CdReaderError::Io(IoError::DriveNotOpened)),
        }
    }

    /// Gives up the handle, for the caller to close.
    pub fn close(&mut self) -> (handle: Option<H>)
        ensures
            handle == old(self).handle,
            *final(self) == old(self).after_close(),
    {
        self.handle.take()
    }
}

/// Refuses a device path that the operating system could not take as a whole, because
/// a zero character would end it early.
pub fn check_path(path: &str) -> (result: Result<(), IoError>)
    ensures
        result == (if path@.contains('\0') {
            Err::<(), IoError>(IoError::DeviceUnavailable)
        } else {
            Ok(())
        }),
{
    let len: usize = path.unicode_len();
    let mut i: usize = 0;
    while i < len
        invariant
            len == path@.len(),
            i <= len,
            forall|j: int| 0 <= j < i ==> path@[j] != '\0',
        decreases len - i,
    {
        if path.get_char(i) == '\0' {
            return Err(IoError::DeviceUnavailable);
        }
        i += 1;
    }
    Ok(())
}

/// Commands go to the drive that was opened last, until it is closed. An attempt
/// to open a drive that fails changes nothing.
pub proof fn law_commands_go_to_the_open_drive<H>(slot: DriveSlot<H>, handle: H, err: IoError)
    ensures
        slot.after_open(Ok(handle)).target() == Ok::<H, CdReaderError>(handle),
        slot.after_open(Err(err)) == slot,
        slot.after_open(Ok(handle)).after_close().target() == Err::<H, CdReaderError>(
            CdReaderError::Io(IoError::DriveNotOpened),
        ),
{
}

} // verus!
