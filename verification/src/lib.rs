//! Reading audio CDs (CD-DA).
//!
//! All operations happen in this order:
//!
//! 1. Open a CD drive.
//! 2. Read the table of contents ([`Toc`]) of the disc.
//! 3. Read track data from the sector ranges that the table gives.
//!
//! This crate holds the logic of these steps and performs no I/O itself. It builds
//! the commands for the drive ([`scsi`]), decides which sectors to ask for and when
//! to try again ([`transfer`]), makes sense of the replies of each platform
//! ([`linux`], [`macos`], [`windows`]) and of the table of contents
//! ([`parse_toc`]), resolves tracks to sectors ([`toc`]) and wraps PCM into WAV
//! files ([`wav`]). A program around it talks to the operating system. What each
//! operation is for is stated in [`laws`].
//!
//! Any other source of sectors, such as a disc image, plugs in by implementing
//! [`AudioSectorReader`].

pub mod backend;
pub mod bytes;
pub mod data_reader;
pub mod discovery;
pub mod drive;
pub mod errors;
pub mod laws;
pub mod linux;
pub mod macos;
pub mod msf;
pub mod parse_toc;
pub mod paths;
pub mod reader;
pub mod retry;
pub mod scsi;
pub mod stream;
pub mod toc;
pub mod transfer;
pub mod transfer_laws;
pub mod wav;
pub mod windows;

pub use backend::{read_track, AudioSectorReader, TrackReadError};
pub use data_reader::SectorReadMode;
pub use discovery::DriveInfo;
pub use errors::{CdReaderError, IoError, ScsiError, ScsiOp};
pub use msf::lba_to_msf;
pub use reader::CdReader;
pub use retry::RetryConfig;
pub use stream::{TrackStream, TrackStreamConfig};
pub use toc::{get_track_bounds, Toc, Track};
pub use wav::create_wav;
