//! How far the transfer of a file is.

use vstd::prelude::*;

verus! {

/// Everything of a double-precision number but its sign.
pub const MAGNITUDE_MASK: u64 = 0x7fff_ffff_ffff_ffff;

/// The magnitude of infinity. Greater ones are not numbers.
pub const INFINITE_MAGNITUDE: u64 = 0x7ff0_0000_0000_0000;

/// A share of something, as the bits of a double-precision number.
#[derive(Clone, Copy, Debug, Structural, PartialEq, Eq)]
pub struct Progress {
    pub bits: u64,
}

impl Progress {
    /// Whether the bits don't stand for a number.
    pub open spec fn is_nan(self) -> bool {
        self.bits & MAGNITUDE_MASK > INFINITE_MAGNITUDE
    }

    /// Whether both are the same number, which zeros of either sign are.
    pub open spec fn equals(self, other: Progress) -> bool {
        &&& !self.is_nan()
        &&& !other.is_nan()
        &&& self.bits == other.bits || self.bits & MAGNITUDE_MASK == 0 && other.bits
            & MAGNITUDE_MASK == 0
    }

    /// Whether both are the same number.
    pub fn is_equal(&self, other: &Progress) -> (result: bool)
        ensures
            result == self.equals(*other),
    {
        let magnitude: u64 = self.bits & MAGNITUDE_MASK;
        let other_magnitude: u64 = other.bits & MAGNITUDE_MASK;
        magnitude <= INFINITE_MAGNITUDE && other_magnitude <= INFINITE_MAGNITUDE && (self.bits
            == other.bits || magnitude == 0 && other_magnitude == 0)
    }

    /// Nothing yet.
    pub fn zero() -> (progress: Progress)
        ensures
            progress.bits == 0,
    {
        Progress { bits: 0 }
    }
}

/// The status of a file.
#[derive(Clone, Copy, Debug, PartialEq, Eq, Structural)]
pub enum FileStatus {
    Downloading(Progress),
    Uploading(Progress),
    CanBeDownloaded,
    Downloaded,
}

impl FileStatus {
    /// Whether there is nothing to tell about when the one follows the other.
    pub open spec fn equals(self, other: FileStatus) -> bool {
        match self {
            FileStatus::Downloading(progress) => match other {
                FileStatus::Downloading(other_progress) => progress.equals(other_progress),
                _ => false,
            },
            FileStatus::Uploading(progress) => match other {
                FileStatus::Uploading(other_progress) => progress.equals(other_progress),
                _ => false,
            },
            FileStatus::CanBeDownloaded => other is CanBeDownloaded,
            FileStatus::Downloaded => other is Downloaded,
        }
    }

    /// Whether there is nothing to tell about when the one follows the other.
    pub fn is_equal(&self, other: &FileStatus) -> (result: bool)
        ensures
            result == self.equals(*other),
    {
        match (self, other) {
            (FileStatus::Downloading(progress), FileStatus::Downloading(other_progress)) => {
                progress.is_equal(other_progress)
            },
            (FileStatus::Uploading(progress), FileStatus::Uploading(other_progress)) => {
                progress.is_equal(other_progress)
            },
            (FileStatus::CanBeDownloaded, FileStatus::CanBeDownloaded) => true,
            (FileStatus::Downloaded, FileStatus::Downloaded) => true,
            _ => false,
        }
    }
}

/// Shares are equal if and only if they are numbers and have the same bits, or
/// are zeros.
pub proof fn law_equal_shares(progress: Progress, other: Progress)
    ensures
        progress.equals(other) == other.equals(progress),
        progress.is_nan() ==> !progress.equals(other),
        !progress.is_nan() ==> progress.equals(progress),
        !progress.is_nan() && !other.is_nan() && progress.bits != other.bits && progress.bits
            & MAGNITUDE_MASK != 0 ==> !progress.equals(other),
        progress.bits & MAGNITUDE_MASK == 0 && other.bits & MAGNITUDE_MASK == 0
            ==> progress.equals(other),
        progress.is_nan() <==> progress.bits & 0x7fff_ffff_ffff_ffff > 0x7ff0_0000_0000_0000,
{
}

/// There is something to tell about whenever a file gets another kind of status
/// or another share of it was transferred.
pub proof fn law_equal_statuses(progress: Progress, other: Progress)
    ensures
        FileStatus::Downloaded.equals(FileStatus::Downloaded),
        FileStatus::CanBeDownloaded.equals(FileStatus::CanBeDownloaded),
        FileStatus::Downloading(progress).equals(FileStatus::Downloading(other)) == progress.equals(
            other,
        ),
        FileStatus::Uploading(progress).equals(FileStatus::Uploading(other)) == progress.equals(
            other,
        ),
        !FileStatus::Downloaded.equals(FileStatus::CanBeDownloaded),
        !FileStatus::Downloaded.equals(FileStatus::Downloading(progress)),
        !FileStatus::Downloaded.equals(FileStatus::Uploading(progress)),
        !FileStatus::CanBeDownloaded.equals(FileStatus::Downloaded),
        !FileStatus::CanBeDownloaded.equals(FileStatus::Downloading(progress)),
        !FileStatus::CanBeDownloaded.equals(FileStatus::Uploading(progress)),
        !FileStatus::Downloading(progress).equals(FileStatus::Downloaded),
        !FileStatus::Downloading(progress).equals(FileStatus::CanBeDownloaded),
        !FileStatus::Downloading(progress).equals(FileStatus::Uploading(other)),
        !FileStatus::Uploading(progress).equals(FileStatus::Downloaded),
        !FileStatus::Uploading(progress).equals(FileStatus::CanBeDownloaded),
        !FileStatus::Uploading(progress).equals(FileStatus::Downloading(other)),
{
}

} // verus!
