//! Decisions of a streaming, resumable download of one file part: the range
//! to ask for, the statuses that end it, the progress it reports, and
//! whether it ended complete. The caller streams the bytes.

use vstd::prelude::*;
use vstd::string::StringExecFns;
use crate::error::{CloudError, Result};
use crate::text::{dec_nat, push_decimal};

verus! {

/// Progress callback: `(bytes_done, total_bytes_if_known)`.
pub trait ProgressSink: FnMut(u64, Option<u64>) {

}

impl<T: FnMut(u64, Option<u64>)> ProgressSink for T {

}

/// The `Range` header of a download resumed at byte `from`: none for a
/// fresh download, else `bytes={from}-`.
pub fn range_header(from: u64) -> (r: Option<String>)
    ensures
        from == 0 ==> r is None,
        from > 0 ==> (r matches Some(s) && s@ == "bytes="@ + dec_nat(from as nat) + "-"@),
{
    if from > 0 {
        let mut s = "bytes=".to_owned();
        push_decimal(&mut s, from);
        s.append("-");
        Some(s)
    } else {
        None
    }
}

/// A `403` from storage means the signed URL expired: an auth failure, so
/// that the caller resolves the download again and retries from the same
/// offset. Other statuses go on.
pub fn check_download_status(status: u16) -> (r: Result<()>)
    ensures
        status == 403 ==> (r matches Err(CloudError::Auth(m)) && m@
            == "OSS url expired (403) — re-resolve download"@),
        status != 403 ==> r is Ok,
{
    if status == 403 {
        return Err(CloudError::Auth("OSS url expired (403) — re-resolve download".to_owned()));
    }
    Ok(())
}

/// The expected total of a download: the declared part size when known,
/// else the response length plus the resume offset, if the response has one.
pub open spec fn spec_download_total(part_size: u64, content_len: Option<u64>, from: u64) -> Option<
    u64,
> {
    if part_size > 0 {
        Some(part_size)
    } else {
        match content_len {
            Some(c) => Some((c + from) as u64),
            None => None,
        }
    }
}

/// Whether a download that reached `done` bytes is complete: a known total
/// must be reached; without one, any count is complete.
pub open spec fn spec_download_ok(done: u64, total: Option<u64>) -> bool {
    match total {
        Some(t) => done >= t,
        None => true,
    }
}

/// Byte count of a download in progress and the total it should reach.
#[derive(Debug, Clone, Copy, PartialEq, Eq, Structural)]
pub struct DownloadProgress {
    pub done: u64,
    pub total: Option<u64>,
}

impl DownloadProgress {
    /// The progress at the start of a download resumed at `from`.
    pub fn start(part_size: u64, content_len: Option<u64>, from: u64) -> (p: DownloadProgress)
        requires
            part_size == 0 ==> match content_len {
                Some(c) => c + from <= u64::MAX,
                None => true,
            },
        ensures
            p.done == from,
            p.total == spec_download_total(part_size, content_len, from),
    {
        let total = if part_size > 0 {
            Some(part_size)
        } else {
            match content_len {
                Some(c) => Some(c + from),
                None => None,
            }
        };
        DownloadProgress { done: from, total }
    }

    /// Count a chunk of `n` bytes written to the sink.
    pub fn advance(&mut self, n: u64)
        requires
            old(self).done + n <= u64::MAX,
        ensures
            final(self).done == old(self).done + n,
            final(self).total == old(self).total,
    {
        self.done = self.done + n;
    }

    /// Whether the download ended complete: it is partial when a total is
    /// known and fewer bytes arrived.
    pub fn finish(&self) -> (r: Result<()>)
        ensures
            (r is Ok) == spec_download_ok(self.done, self.total),
            match self.total {
                Some(t) => if self.done < t {
                    r matches Err(CloudError::Partial { got, expected }) && got == self.done
                        && expected == t
                } else {
                    r is Ok
                },
                None => r is Ok,
            },
    {
        match self.total {
            Some(t) => if self.done < t {
                Err(CloudError::Partial { got: self.done, expected: t })
            } else {
                Ok(())
            },
            None => Ok(()),
        }
    }
}

} // verus!
