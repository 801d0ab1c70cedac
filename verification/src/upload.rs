//! The upload of one file, as a machine that is told what came back from the
//! service and says what to send next.
//!
//! The caller performs the requests. Parts go out one at a time, in order;
//! after each one the quota that the response reports decides how long to
//! hold back. The manifest goes out last, once every part is stored.

use crate::error::{TransferError, TransferErrorView};
use crate::headers::header_fields;
use crate::instance::InstanceInfo;
use crate::manifest::{all_ids, encoded, is_id, is_name, is_valid_id, is_valid_name, Manifest};
use crate::naming::{manifest_name, manifest_name_of, part_name, part_name_of};
use crate::rate_limit::{throttle, throttle_of};
use crate::split::{contents, count_of, part, part_bounds, part_count, part_of};
use vstd::prelude::*;

verus! {

/// What kind of content an object holds.
#[derive(Clone, Copy, Debug, PartialEq, Eq, Structural)]
pub enum ContentKind {
    /// Raw bytes: a part of the file.
    Binary,
    /// Text: the manifest.
    Text,
}

impl ContentKind {
    /// The media type under which content of this kind is stored.
    pub open spec fn mime_text(self) -> Seq<char> {
        match self {
            ContentKind::Binary => "application/octet-stream"@,
            ContentKind::Text => "text/plain"@,
        }
    }

    /// The media type under which content of this kind is stored.
    pub fn mime(self) -> (r: &'static str)
        ensures
            r@ == self.mime_text(),
    {
        match self {
            ContentKind::Binary => "application/octet-stream",
            ContentKind::Text => "text/plain",
        }
    }
}

/// One object to store: what to send, under which name, and how long to hold
/// back before sending it.
#[derive(Debug, PartialEq, Eq)]
pub struct StoreRequest {
    /// The name under which the object is stored.
    pub name: Vec<u8>,
    /// The object's content.
    pub body: Vec<u8>,
    /// The kind of the content.
    pub kind: ContentKind,
    /// The milliseconds to let pass before the request is sent.
    pub delay_ms: u128,
}

/// A request as contracts speak of it.
pub struct StoreRequestView {
    pub name: Seq<u8>,
    pub body: Seq<u8>,
    pub kind: ContentKind,
    pub delay_ms: int,
}

impl View for StoreRequest {
    type V = StoreRequestView;

    open spec fn view(&self) -> StoreRequestView {
        StoreRequestView {
            name: self.name@,
            body: self.body@,
            kind: self.kind,
            delay_ms: self.delay_ms as int,
        }
    }
}

/// What came back for the request that was sent last.
pub enum Reply<'a> {
    /// Nothing usable: the request did not get through.
    Failed,
    /// A response.
    Answered {
        /// The headers of the response.
        headers: &'a reqwest::header::HeaderMap<reqwest::header::HeaderValue>,
        /// The identifier that the body of the response gives to the stored
        /// object, or `None` where the body names none.
        id: Option<Vec<u8>>,
        /// The time at which the response is looked at, in milliseconds
        /// since the Unix epoch.
        now_ms: u64,
    },
}

/// A reply as contracts speak of it.
pub enum ReplyView {
    Failed,
    Answered { fields: Map<Seq<char>, Seq<u8>>, id: Option<Seq<u8>>, now_ms: u64 },
}

impl<'a> View for Reply<'a> {
    type V = ReplyView;

    open spec fn view(&self) -> ReplyView {
        match *self {
            Reply::Failed => ReplyView::Failed,
            Reply::Answered { headers, id, now_ms } => ReplyView::Answered {
                fields: header_fields(*headers),
                id: match id {
                    Some(text) => Some(text@),
                    None => None,
                },
                now_ms,
            },
        }
    }
}

/// An upload under way: the file, the size ceiling, and the identifiers of
/// the parts stored so far.
#[derive(Debug)]
pub struct Upload {
    file: Vec<u8>,
    ceiling: u64,
    manifest: Manifest,
}

/// An upload under way as contracts speak of it.
pub struct UploadView {
    pub file: Seq<u8>,
    pub file_name: Seq<u8>,
    pub ceiling: nat,
    pub part_ids: Seq<Seq<u8>>,
}

/// How an upload goes on.
#[derive(Debug)]
pub enum UploadStep {
    /// Send this request and report what comes back.
    Send(Upload, StoreRequest),
    /// Every object is stored; this is the manifest's identifier.
    Finished(Vec<u8>),
    /// The upload has failed; nothing more is to be sent.
    Aborted(TransferError),
}

/// A step as contracts speak of it.
pub enum UploadStepView {
    Send(UploadView, StoreRequestView),
    Finished(Seq<u8>),
    Aborted(TransferErrorView),
}

impl UploadView {
    /// The number of parts that the file is cut into.
    pub open spec fn part_count(self) -> nat {
        count_of(self.file.len(), self.ceiling)
    }

    /// What holds of every upload under way.
    pub open spec fn wf(self) -> bool {
        &&& self.ceiling > 0
        &&& self.file.len() > self.ceiling
        &&& is_name(self.file_name)
        &&& all_ids(self.part_ids)
        &&& self.part_ids.len() <= self.part_count()
    }

    /// Whether every part is stored, so that the manifest is what goes next.
    pub open spec fn parts_stored(self) -> bool {
        self.part_ids.len() >= self.part_count()
    }

    /// The request that goes next: the first part that is not stored yet, or
    /// the manifest once no part is left.
    pub open spec fn request(self, delay_ms: int) -> StoreRequestView {
        if self.parts_stored() {
            StoreRequestView {
                name: manifest_name_of(self.file_name),
                body: encoded(self.file_name, self.part_ids),
                kind: ContentKind::Text,
                delay_ms,
            }
        } else {
            StoreRequestView {
                name: part_name_of(self.file_name, self.part_ids.len()),
                body: part_of(self.file, self.ceiling, self.part_ids.len()),
                kind: ContentKind::Binary,
                delay_ms,
            }
        }
    }

    /// The upload with one more part stored under `id`.
    pub open spec fn with_part(self, id: Seq<u8>) -> UploadView {
        UploadView {
            file: self.file,
            file_name: self.file_name,
            ceiling: self.ceiling,
            part_ids: self.part_ids.push(id),
        }
    }

    /// How the upload goes on after `reply` to the request that went last.
    ///
    /// While a part is awaited: a request that did not get through fails the
    /// part. Otherwise the headers decide the delay before the next request,
    /// for the size of the part that follows the awaited one (zero after the
    /// last part); a header that is absent or no number fails the upload.
    /// Then a body without an identifier fails the part, and an identifier
    /// that cannot stand in a manifest fails the upload. Otherwise the
    /// identifier is recorded and the next request goes out.
    ///
    /// While the manifest is awaited: its identifier ends the upload, and
    /// anything else fails it. The headers are not looked at.
    pub open spec fn step(self, reply: ReplyView) -> UploadStepView {
        if self.parts_stored() {
            match reply {
                ReplyView::Answered { id: Some(id), .. } => UploadStepView::Finished(id),
                _ => UploadStepView::Aborted(TransferErrorView::ManifestUploadFailed),
            }
        } else {
            let index = self.part_ids.len();
            match reply {
                ReplyView::Failed => UploadStepView::Aborted(
                    TransferErrorView::PartUploadFailed { index: index as u64 },
                ),
                ReplyView::Answered { fields, id, now_ms } => {
                    let next_size = part_of(self.file, self.ceiling, index + 1).len();
                    match throttle_of(fields, next_size as u64, now_ms) {
                        Err(e) => UploadStepView::Aborted(e@),
                        Ok(wait) => match id {
                            None => UploadStepView::Aborted(
                                TransferErrorView::PartUploadFailed { index: index as u64 },
                            ),
                            Some(id) => if is_id(id) {
                                UploadStepView::Send(
                                    self.with_part(id),
                                    self.with_part(id).request(wait),
                                )
                            } else {
                                UploadStepView::Aborted(TransferErrorView::ManifestMalformed)
                            },
                        },
                    }
                },
            }
        }
    }
}

/// How an upload begins. A file that fits into one object is not split. A
/// ceiling of zero bytes leaves no way to cut a file that holds anything: the
/// instance's description is then of no use to the upload. A file name that
/// holds the separator cannot be recorded. Otherwise the first part goes out
/// at once.
pub open spec fn begin_of(file: Seq<u8>, file_name: Seq<u8>, ceiling: nat) -> UploadStepView {
    let fresh = UploadView { file, file_name, ceiling, part_ids: Seq::empty() };
    if file.len() <= ceiling {
        UploadStepView::Aborted(TransferErrorView::FileTooSmallForSplitting)
    } else if ceiling == 0 {
        UploadStepView::Aborted(TransferErrorView::InstanceInfoMalformed)
    } else if !is_name(file_name) {
        UploadStepView::Aborted(TransferErrorView::ManifestMalformed)
    } else {
        UploadStepView::Send(fresh, fresh.request(0))
    }
}

/// Where an upload stands after the replies `replies`, taken in order, when
/// it stood at `start` before them. Once it is finished or has failed,
/// further replies change nothing.
pub open spec fn run(start: UploadStepView, replies: Seq<ReplyView>) -> UploadStepView
    decreases replies.len(),
{
    if replies.len() == 0 {
        start
    } else {
        match run(start, replies.drop_last()) {
            UploadStepView::Send(upload, _) => upload.step(replies.last()),
            ended => ended,
        }
    }
}

impl View for Upload {
    type V = UploadView;

    closed spec fn view(&self) -> UploadView {
        UploadView {
            file: self.file@,
            file_name: self.manifest.name(),
            ceiling: self.ceiling as nat,
            part_ids: self.manifest.ids(),
        }
    }
}

impl View for UploadStep {
    type V = UploadStepView;

    open spec fn view(&self) -> UploadStepView {
        match *self {
            UploadStep::Send(upload, request) => UploadStepView::Send(upload@, request@),
            UploadStep::Finished(id) => UploadStepView::Finished(id@),
            UploadStep::Aborted(e) => UploadStepView::Aborted(e@),
        }
    }
}

impl Upload {
    #[verifier::type_invariant]
    spec fn sound(self) -> bool {
        self@.wf()
    }

    /// Begins the upload of `file` under the name `file_name` to the
    /// instance that `info` describes.
    pub fn begin(file: Vec<u8>, file_name: Vec<u8>, info: &InstanceInfo) -> (r: UploadStep)
        ensures
            r@ == begin_of(file@, file_name@, info.ceiling() as nat),
            r matches UploadStep::Send(upload, _) ==> upload@.wf(),
    {
        let ceiling: u64 = info.attachment_file_size();
        if file.len() as u64 <= ceiling {
            return UploadStep::Aborted(TransferError::FileTooSmallForSplitting);
        }
        if ceiling == 0 {
            return UploadStep::Aborted(TransferError::InstanceInfoMalformed);
        }
        if !is_valid_name(file_name.as_slice()) {
            return UploadStep::Aborted(TransferError::ManifestMalformed);
        }
        let manifest = Manifest { file_name, part_ids: Vec::new() };
        assert(manifest.ids() =~= Seq::<Seq<u8>>::empty());
        let upload = Upload { file, ceiling, manifest };
        let request: StoreRequest = upload.request(0);
        UploadStep::Send(upload, request)
    }

    /// The number of parts that are stored so far, which is also the index
    /// of the part that goes next while parts are left.
    pub fn stored_count(&self) -> (r: u64)
        ensures
            r == self@.part_ids.len(),
    {
        proof {
            use_type_invariant(self);
        }
        self.manifest.part_ids.len() as u64
    }

    /// The number of parts that the file is cut into.
    pub fn part_total(&self) -> (r: u64)
        ensures
            r == self@.part_count(),
    {
        proof {
            use_type_invariant(self);
        }
        part_count(self.file.len() as u64, self.ceiling)
    }

    /// The request that goes next, to be sent after `delay_ms` milliseconds.
    fn request(&self, delay_ms: u128) -> (r: StoreRequest)
        ensures
            r@ == self@.request(delay_ms as int),
    {
        proof {
            use_type_invariant(self);
        }
        let count: u64 = part_count(self.file.len() as u64, self.ceiling);
        let index: u64 = self.manifest.part_ids.len() as u64;
        if index < count {
            StoreRequest {
                name: part_name(self.manifest.file_name.as_slice(), index),
                body: part(self.file.as_slice(), self.ceiling, index),
                kind: ContentKind::Binary,
                delay_ms,
            }
        } else {
            StoreRequest {
                name: manifest_name(self.manifest.file_name.as_slice()),
                body: self.manifest.write(),
                kind: ContentKind::Text,
                delay_ms,
            }
        }
    }

    /// Takes what came back for the request that went last and says how the
    /// upload goes on.
    pub fn step(self, reply: Reply) -> (r: UploadStep)
        ensures
            r@ == self@.step(reply@),
            r matches UploadStep::Send(upload, _) ==> upload@.wf(),
    {
        proof {
            use_type_invariant(&self);
        }
        let len: u64 = self.file.len() as u64;
        let count: u64 = part_count(len, self.ceiling);
        let index: u64 = self.manifest.part_ids.len() as u64;
        if index >= count {
            return match reply {
                Reply::Answered { id: Some(id), .. } => UploadStep::Finished(id),
                _ => UploadStep::Aborted(TransferError::ManifestUploadFailed),
            };
        }
        match reply {
            Reply::Failed => UploadStep::Aborted(TransferError::PartUploadFailed { index }),
            Reply::Answered { headers, id, now_ms } => {
                let (start, end) = part_bounds(len, self.ceiling, index + 1);
                let wait: u128 = match throttle(headers, end - start, now_ms) {
                    Ok(wait) => wait,
                    Err(e) => {
                        return UploadStep::Aborted(e);
                    },
                };
                let id: Vec<u8> = match id {
                    Some(id) => id,
                    None => {
                        return UploadStep::Aborted(TransferError::PartUploadFailed { index });
                    },
                };
                if !is_valid_id(id.as_slice()) {
                    return UploadStep::Aborted(TransferError::ManifestMalformed);
                }
                let ghost before = self@;
                let Upload { file, ceiling, manifest } = self;
                let Manifest { file_name, mut part_ids } = manifest;
                part_ids.push(id);
                let manifest = Manifest { file_name, part_ids };
                assert(manifest.ids() =~= before.part_ids.push(id@));
                let upload = Upload { file, ceiling, manifest };
                assert(upload@ == before.with_part(id@));
                let request: StoreRequest = upload.request(wait);
                UploadStep::Send(upload, request)
            },
        }
    }
}

} // verus!
