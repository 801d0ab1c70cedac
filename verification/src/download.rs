//! The download of one file, as a machine that is told what was fetched and
//! says what to fetch next.
//!
//! The caller performs the requests. The manifest is fetched first; the parts
//! follow one at a time, in the order in which the manifest lists them, and
//! each is put after the bytes that are already in the sink.

use crate::bytes::append;
use crate::error::{TransferError, TransferErrorView};
use crate::instance::InstanceInfo;
use crate::manifest::{decoded_ids, decoded_name, Manifest};
use crate::naming::{object_url, object_url_of};
use vstd::prelude::*;

verus! {

/// What came back for the object that was asked for last.
pub enum Fetched<'a> {
    /// Nothing: the object could not be fetched.
    Failed,
    /// The object's content.
    Body(&'a [u8]),
}

/// A fetched object as contracts speak of it.
pub enum FetchedView {
    Failed,
    Body(Seq<u8>),
}

impl<'a> View for Fetched<'a> {
    type V = FetchedView;

    open spec fn view(&self) -> FetchedView {
        match *self {
            Fetched::Failed => FetchedView::Failed,
            Fetched::Body(bytes) => FetchedView::Body(bytes@),
        }
    }
}

/// A download under way: where objects are fetched from, the manifest once
/// it is read, the part that is awaited, and the bytes handed on so far.
#[derive(Debug)]
pub struct Download {
    endpoint: Vec<u8>,
    manifest: Option<Manifest>,
    next: usize,
    written: u128,
}

/// A download under way as contracts speak of it. Until the manifest is read
/// there is no file name and there are no identifiers.
pub struct DownloadView {
    pub endpoint: Seq<u8>,
    pub manifest_read: bool,
    pub file_name: Seq<u8>,
    pub part_ids: Seq<Seq<u8>>,
    pub next: nat,
    pub written: nat,
}

/// How a download goes on.
#[derive(Debug)]
pub enum DownloadStep {
    /// Fetch the object at this address and report what comes back.
    Fetch(Download, Vec<u8>),
    /// Every part is in the sink.
    Finished {
        /// The name of the file that the parts make up.
        file_name: Vec<u8>,
        /// The number of bytes that the parts hold together.
        bytes_written: u128,
    },
    /// The download has failed; nothing more is to be fetched.
    Aborted(TransferError),
}

/// A step as contracts speak of it.
pub enum DownloadStepView {
    Fetch(DownloadView, Seq<u8>),
    Finished { file_name: Seq<u8>, bytes_written: nat },
    Aborted(TransferErrorView),
}

impl DownloadView {
    /// What holds of every download under way: before the manifest is read
    /// nothing is known and nothing is written, and afterwards a part that
    /// the manifest lists is awaited.
    pub open spec fn wf(self) -> bool {
        if self.manifest_read {
            self.next < self.part_ids.len()
        } else {
            &&& self.file_name == Seq::<u8>::empty()
            &&& self.part_ids == Seq::<Seq<u8>>::empty()
            &&& self.next == 0
            &&& self.written == 0
        }
    }

    /// The download once the manifest `text` is read.
    pub open spec fn with_manifest(self, text: Seq<u8>) -> DownloadView {
        DownloadView {
            endpoint: self.endpoint,
            manifest_read: true,
            file_name: decoded_name(text),
            part_ids: decoded_ids(text),
            next: 0,
            written: 0,
        }
    }

    /// The download once the awaited part, of `len` bytes, is in the sink.
    pub open spec fn with_part(self, len: nat) -> DownloadView {
        DownloadView {
            endpoint: self.endpoint,
            manifest_read: true,
            file_name: self.file_name,
            part_ids: self.part_ids,
            next: self.next + 1,
            written: self.written + len,
        }
    }

    /// How the download goes on after `fetched` came back for the object
    /// that was asked for last.
    ///
    /// While the manifest is awaited: a failure fails the download. The text
    /// is read otherwise; with no identifier in it the download is finished,
    /// with nothing written, and else the first part is fetched.
    ///
    /// While a part is awaited: a failure fails the download and names the
    /// part. Otherwise the part counts as written, and the next part that the
    /// manifest lists is fetched, or the download is finished after the last.
    pub open spec fn step(self, fetched: FetchedView) -> DownloadStepView {
        if !self.manifest_read {
            match fetched {
                FetchedView::Failed => DownloadStepView::Aborted(
                    TransferErrorView::ManifestFetchFailed,
                ),
                FetchedView::Body(text) => {
                    let read = self.with_manifest(text);
                    if read.part_ids.len() == 0 {
                        DownloadStepView::Finished { file_name: read.file_name, bytes_written: 0 }
                    } else {
                        DownloadStepView::Fetch(
                            read,
                            object_url_of(read.endpoint, read.part_ids[0]),
                        )
                    }
                },
            }
        } else {
            match fetched {
                FetchedView::Failed => DownloadStepView::Aborted(
                    TransferErrorView::PartFetchFailed { id: self.part_ids[self.next as int] },
                ),
                FetchedView::Body(bytes) => {
                    let moved = self.with_part(bytes.len());
                    if moved.next >= moved.part_ids.len() {
                        DownloadStepView::Finished {
                            file_name: moved.file_name,
                            bytes_written: moved.written,
                        }
                    } else {
                        DownloadStepView::Fetch(
                            moved,
                            object_url_of(moved.endpoint, moved.part_ids[moved.next as int]),
                        )
                    }
                },
            }
        }
    }

    /// The bytes that go into the sink when `fetched` comes back: the content
    /// of an awaited part, and nothing otherwise.
    pub open spec fn appended(self, fetched: FetchedView) -> Seq<u8> {
        match fetched {
            FetchedView::Body(bytes) if self.manifest_read => bytes,
            _ => Seq::empty(),
        }
    }
}

/// How a download begins: with the manifest still to be read.
pub open spec fn begin_of(endpoint: Seq<u8>) -> DownloadView {
    DownloadView {
        endpoint,
        manifest_read: false,
        file_name: Seq::empty(),
        part_ids: Seq::empty(),
        next: 0,
        written: 0,
    }
}

/// Where a download stands, and what its sink holds, after the objects
/// `fetched` came back in order, when it stood at `start` with `sink` before
/// them. Once it is finished or has failed, further objects change nothing.
pub open spec fn run(start: DownloadStepView, sink: Seq<u8>, fetched: Seq<FetchedView>) -> (
    DownloadStepView,
    Seq<u8>,
)
    decreases fetched.len(),
{
    if fetched.len() == 0 {
        (start, sink)
    } else {
        let before = run(start, sink, fetched.drop_last());
        match before.0 {
            DownloadStepView::Fetch(download, _) => (
                download.step(fetched.last()),
                before.1 + download.appended(fetched.last()),
            ),
            _ => before,
        }
    }
}

impl View for Download {
    type V = DownloadView;

    closed spec fn view(&self) -> DownloadView {
        DownloadView {
            endpoint: self.endpoint@,
            manifest_read: self.manifest is Some,
            file_name: match self.manifest {
                Some(manifest) => manifest.name(),
                None => Seq::empty(),
            },
            part_ids: match self.manifest {
                Some(manifest) => manifest.ids(),
                None => Seq::empty(),
            },
            next: self.next as nat,
            written: self.written as nat,
        }
    }
}

impl View for DownloadStep {
    type V = DownloadStepView;

    open spec fn view(&self) -> DownloadStepView {
        match *self {
            DownloadStep::Fetch(download, url) => DownloadStepView::Fetch(download@, url@),
            DownloadStep::Finished { file_name, bytes_written } => DownloadStepView::Finished {
                file_name: file_name@,
                bytes_written: bytes_written as nat,
            },
            DownloadStep::Aborted(e) => DownloadStepView::Aborted(e@),
        }
    }
}

impl Download {
    #[verifier::type_invariant]
    spec fn sound(self) -> bool {
        &&& self@.wf()
        &&& self.written <= self.next * 0x1_0000_0000_0000_0000
    }

    /// Begins the download of the file whose manifest is the object
    /// `meta_id` of the instance that `info` describes. The result is the
    /// download and the address from which the manifest is fetched.
    pub fn begin(meta_id: &[u8], info: &InstanceInfo) -> (r: (Download, Vec<u8>))
        ensures
            r.0@ == begin_of(info.endpoint()),
            r.0@.wf(),
            r.1@ == object_url_of(info.endpoint(), meta_id@),
    {
        let mut endpoint: Vec<u8> = Vec::new();
        append(&mut endpoint, info.effis_url().as_slice());
        let url: Vec<u8> = object_url(endpoint.as_slice(), meta_id);
        (Download { endpoint, manifest: None, next: 0, written: 0 }, url)
    }

    /// The name of the file, once the manifest is read.
    pub fn file_name(&self) -> (r: Option<&Vec<u8>>)
        ensures
            match r {
                Some(name) => self@.manifest_read && name@ == self@.file_name,
                None => !self@.manifest_read,
            },
    {
        match &self.manifest {
            Some(manifest) => Some(&manifest.file_name),
            None => None,
        }
    }

    /// The place in the manifest of the part that is awaited; zero while the
    /// manifest itself is awaited.
    pub fn parts_written(&self) -> (r: usize)
        ensures
            r == self@.next,
    {
        self.next
    }

    /// The number of parts that the manifest lists; zero while the manifest
    /// itself is awaited.
    pub fn part_total(&self) -> (r: usize)
        ensures
            r == self@.part_ids.len(),
    {
        match &self.manifest {
            Some(manifest) => {
                assert(manifest.ids().len() == manifest.part_ids@.len());
                manifest.part_ids.len()
            },
            None => 0,
        }
    }

    /// Takes what came back for the object that was asked for last, puts the
    /// content of a part after the bytes in `sink`, and says how the download
    /// goes on.
    pub fn step(self, fetched: Fetched, sink: &mut Vec<u8>) -> (r: DownloadStep)
        ensures
            r@ == self@.step(fetched@),
            final(sink)@ == old(sink)@ + self@.appended(fetched@),
            r matches DownloadStep::Fetch(download, _) ==> download@.wf(),
    {
        proof {
            use_type_invariant(&self);
        }
        let ghost before = self@;
        let Download { endpoint, manifest, next, written } = self;
        match manifest {
            None => {
                assert(sink@ + Seq::<u8>::empty() =~= sink@);
                match fetched {
                    Fetched::Failed => DownloadStep::Aborted(TransferError::ManifestFetchFailed),
                    Fetched::Body(text) => {
                        let manifest: Manifest = Manifest::decode(text);
                        if manifest.part_ids.len() == 0 {
                            let Manifest { file_name, .. } = manifest;
                            DownloadStep::Finished { file_name, bytes_written: 0 }
                        } else {
                            let url: Vec<u8> = object_url(
                                endpoint.as_slice(),
                                manifest.part_ids[0].as_slice(),
                            );
                            let download = Download {
                                endpoint,
                                manifest: Some(manifest),
                                next: 0,
                                written: 0,
                            };
                            assert(download@ == before.with_manifest(text@));
                            DownloadStep::Fetch(download, url)
                        }
                    },
                }
            },
            Some(manifest) => {
                assert(before.part_ids == manifest.ids());
                assert(manifest.ids().len() == manifest.part_ids@.len());
                assert(next < manifest.part_ids.len());
                match fetched {
                    Fetched::Failed => {
                        assert(sink@ + Seq::<u8>::empty() =~= sink@);
                        let Manifest { mut part_ids, .. } = manifest;
                        let id: Vec<u8> = part_ids.swap_remove(next);
                        DownloadStep::Aborted(TransferError::PartFetchFailed { id })
                    },
                    Fetched::Body(bytes) => {
                        append(sink, bytes);
                        let total: u128 = written + bytes.len() as u128;
                        if next + 1 >= manifest.part_ids.len() {
                            let Manifest { file_name, .. } = manifest;
                            DownloadStep::Finished { file_name, bytes_written: total }
                        } else {
                            let url: Vec<u8> = object_url(
                                endpoint.as_slice(),
                                manifest.part_ids[next + 1].as_slice(),
                            );
                            let download = Download {
                                endpoint,
                                manifest: Some(manifest),
                                next: next + 1,
                                written: total,
                            };
                            assert(download@ == before.with_part(bytes@.len()));
                            DownloadStep::Fetch(download, url)
                        }
                    },
                }
            },
        }
    }
}

} // verus!
