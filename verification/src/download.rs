//! Downloads: what the beginning of a reply promises, and the bytes that follow.
use vstd::prelude::*;
use vstd::slice::slice_subrange;

use crate::error::UpdateError;
use crate::release;
use crate::release::is_success;
use crate::text;
use crate::text::{last_segment, parse_u64};

verus! {

/// The beginning of the reply to a download request.
#[derive(Debug)]
pub enum Head {
    /// No reply.
    Nothing { cause: String },
    /// A reply with this status code, the status in words, and the header that
    /// tells the length, where there is one that is text.
    Answer { code: u16, status: String, length: Option<String> },
}

/// How the progress of a download is displayed.
#[derive(Debug, PartialEq, Eq)]
pub struct Display {
    /// How many bytes are to come, if the reply tells.
    pub length: Option<u64>,
    /// The template of the progress bar, or of the spinner where the length is
    /// not known.
    pub template: &'static str,
    /// What is being done.
    pub message: String,
}

/// The length that a reply tells.
pub open spec fn told_length(header: Option<Seq<char>>) -> Option<u64> {
    match header {
        Some(h) => text::parsed_u64(h),
        None => None,
    }
}

/// The template of the progress display.
pub open spec fn display_template(length: Option<u64>) -> Seq<char> {
    if length is Some {
        "  {spinner:.cyan} {msg}\n  [{bar:40.cyan/blue}] {bytes}/{total_bytes} ({bytes_per_sec}, {eta})"@
    } else {
        "{spinner:.cyan} {msg} {bytes}"@
    }
}

/// How to display the download of `url`, from the beginning of the reply; or why
/// there is nothing to download.
pub fn begin_download(url: &str, head: Head) -> (r: Result<Display, UpdateError>)
    ensures
        match head {
            Head::Nothing { cause } => r matches Err(UpdateError::Request { url: u, cause: c })
                && u@ == url@ && c@ == cause@,
            Head::Answer { code, status, length } => if release::success_code(code) {
                r matches Ok(d) && d.length == told_length(text::text_of(length)) && d.template@
                    == display_template(d.length) && d.message@ == "Downloading "@
                    + text::last_segment_of(url@, '/')
            } else {
                r matches Err(UpdateError::DownloadStatus { status: s, url: u }) && s@ == status@
                    && u@ == url@
            },
        },
{
    match head {
        Head::Nothing { cause } => Err(UpdateError::Request { url: url.to_string(), cause }),
        Head::Answer { code, status, length } => {
            if !is_success(code) {
                return Err(UpdateError::DownloadStatus { status, url: url.to_string() });
            }
            let length: Option<u64> = match &length {
                Some(header) => parse_u64(header.as_str()),
                None => None,
            };
            let template: &'static str = match length {
                Some(_) =>
                "  {spinner:.cyan} {msg}\n  [{bar:40.cyan/blue}] {bytes}/{total_bytes} ({bytes_per_sec}, {eta})",
                None => "{spinner:.cyan} {msg} {bytes}",
            };
            let mut message: String = "Downloading ".to_string();
            message.append(last_segment(url, '/').as_str());
            Ok(Display { length, template, message })
        },
    }
}

/// The bytes of a download, as far as they have come.
#[derive(Debug)]
pub struct Download {
    received: Vec<u8>,
}

impl View for Download {
    type V = Seq<u8>;

    closed spec fn view(&self) -> Seq<u8> {
        self.received@
    }
}

impl Download {
    /// A download of which nothing has come.
    pub fn new() -> (r: Download)
        ensures
            r@ == Seq::<u8>::empty(),
    {
        Download { received: Vec::new() }
    }

    /// Takes what was read into the beginning of `chunk`: `n` bytes, or an
    /// error. Reading nothing ends the download; otherwise there may be more.
    pub fn take(&mut self, chunk: &[u8], read: Result<usize, String>) -> (r: Result<
        bool,
        UpdateError,
    >)
        requires
            read matches Ok(n) ==> n <= chunk@.len(),
        ensures
            match read {
                Ok(n) => r == Ok::<bool, UpdateError>(n > 0) && final(self)@ == old(self)@
                    + chunk@.take(n as int),
                Err(cause) => (r matches Err(UpdateError::DownloadBody { cause: c }) && c@
                    == cause@) && final(self)@ == old(self)@,
            },
    {
        match read {
            Ok(n) => {
                if n == 0 {
                    assert(self@ + chunk@.take(0) =~= self@);
                    return Ok(false);
                }
                self.received.extend_from_slice(slice_subrange(chunk, 0, n));
                assert(chunk@.subrange(0, n as int) =~= chunk@.take(n as int));
                Ok(true)
            },
            Err(cause) => Err(UpdateError::DownloadBody { cause }),
        }
    }

    /// The bytes that have come.
    pub fn into_bytes(self) -> (r: Vec<u8>)
        ensures
            r@ == self@,
    {
        self.received
    }
}

/// A download holds the bytes of all chunks that were taken, in their order and
/// nothing else.
pub proof fn download_is_its_chunks(states: Seq<Seq<u8>>, chunks: Seq<Seq<u8>>)
    requires
        states.len() == chunks.len() + 1,
        states[0] == Seq::<u8>::empty(),
        forall|k: int| 0 <= k < chunks.len() ==> states[k + 1] == states[k] + #[trigger] chunks[k],
    ensures
        states.last() == chunks.flatten(),
    decreases chunks.len(),
{
    if chunks.len() > 0 {
        let fewer = chunks.drop_last();
        let before = states.drop_last();
        assert forall|k: int| 0 <= k < fewer.len() implies before[k + 1] == before[k]
            + #[trigger] fewer[k] by {
            assert(fewer[k] == chunks[k]);
        }
        download_is_its_chunks(before, fewer);
        let last = chunks[chunks.len() - 1];
        assert(states.last() == before.last() + last);
        fewer.lemma_flatten_push(last);
        assert(fewer.push(last) =~= chunks);
    } else {
        assert(chunks.flatten() =~= Seq::<u8>::empty());
    }
}

/// The display of a download follows the length that the reply tells: a number of
/// bytes gives a bar, whatever the number; anything else gives a spinner.
pub proof fn display_follows_the_length(zeros: Seq<char>, n: nat, header: Seq<char>, i: int)
    requires
        forall|k: int| 0 <= k < zeros.len() ==> #[trigger] zeros[k] == '0',
        n <= u64::MAX,
    ensures
        told_length(Some(zeros + text::decimal(n))) == Some(n as u64),
        0 < i < header.len() && !('0' <= header[i] <= '9') ==> told_length(Some(header)) is None,
        told_length(None) is None,
        display_template(Some(n as u64))
            == "  {spinner:.cyan} {msg}\n  [{bar:40.cyan/blue}] {bytes}/{total_bytes} ({bytes_per_sec}, {eta})"@,
        display_template(None) == "{spinner:.cyan} {msg} {bytes}"@,
{
    text::numbers_read_back(zeros, n);
    if 0 < i < header.len() && !('0' <= header[i] <= '9') {
        text::only_digits_make_a_number(header, i);
    }
}

} // verus!
