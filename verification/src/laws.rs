//! What holds of whole transfers: of an upload from its first part to its
//! manifest, of a download from its manifest to its last part, and of the
//! two together.

use crate::download::{DownloadStepView, DownloadView, FetchedView};
use crate::error::{RateLimitHeader, TransferErrorView};
use crate::headers::field_value;
use crate::manifest::{
    all_ids,
    decoded_ids,
    decoded_name,
    encoded,
    is_id,
    is_name,
    lemma_decode_of_encoded,
};
use crate::naming::{manifest_name_of, object_url_of, part_name_of};
use crate::rate_limit::{lemma_every_header_is_required, throttle_of, window_of};
use crate::split::{count_of, joined, lemma_join_of_parts, part_of, parts_of};
use crate::upload::{ContentKind, ReplyView, UploadStepView, UploadView};
use vstd::prelude::*;

verus! {

/// Whether `reply` is a response that stores an object under `id` and whose
/// headers describe a quota.
pub open spec fn stores(reply: ReplyView, id: Seq<u8>) -> bool {
    reply matches ReplyView::Answered { fields, id: given, .. } && given == Some(id) && window_of(
        fields,
    ) is Ok
}

/// The upload of `file` once its first `k` parts are stored under the first
/// `k` of `ids`.
pub open spec fn upload_after(
    file: Seq<u8>,
    file_name: Seq<u8>,
    ceiling: nat,
    ids: Seq<Seq<u8>>,
    k: int,
) -> UploadView {
    UploadView { file, file_name, ceiling, part_ids: ids.take(k) }
}

/// A file that fits into one object is refused at once: the upload begins
/// with the failure, and with no request.
pub proof fn lemma_small_file_is_refused(file: Seq<u8>, file_name: Seq<u8>, ceiling: nat)
    requires
        file.len() <= ceiling,
    ensures
        crate::upload::begin_of(file, file_name, ceiling) == UploadStepView::Aborted(
            TransferErrorView::FileTooSmallForSplitting,
        ),
{
}

/// While a part is awaited, a response in which one of the six headers is
/// absent or no number fails the upload with an error that names such a
/// header, whatever identifier the response carries: no further request
/// goes out.
pub proof fn lemma_bad_header_aborts_upload(
    upload: UploadView,
    fields: Map<Seq<char>, Seq<u8>>,
    id: Option<Seq<u8>>,
    now_ms: u64,
    header: RateLimitHeader,
)
    requires
        !upload.parts_stored(),
        field_value(fields, header) is Err,
    ensures
        upload.step(ReplyView::Answered { fields, id, now_ms }) matches UploadStepView::Aborted(e)
            && exists|g: RateLimitHeader|
            e == (#[trigger] field_value(fields, g))->Err_0@ && field_value(fields, g) is Err,
{
    let next_size = part_of(upload.file, upload.ceiling, upload.part_ids.len() + 1).len() as u64;
    lemma_every_header_is_required(fields, header, next_size, now_ms);
    let g = choose|g: RateLimitHeader|
        throttle_of(fields, next_size, now_ms)->Err_0 == (#[trigger] field_value(fields, g))->Err_0
            && field_value(fields, g) is Err;
    assert(field_value(fields, g) is Err);
}

/// After `k` parts are stored, the upload asks for part `k` to be stored:
/// parts go out in the order of their indices, each under the file name, a
/// hyphen and its index, and the identifiers are recorded in the order in
/// which the parts went out.
pub proof fn lemma_upload_sends_parts_in_order(
    file: Seq<u8>,
    file_name: Seq<u8>,
    ceiling: nat,
    ids: Seq<Seq<u8>>,
    replies: Seq<ReplyView>,
    k: int,
)
    requires
        0 < ceiling < file.len(),
        is_name(file_name),
        all_ids(ids),
        ids.len() == replies.len(),
        0 <= k <= ids.len() <= count_of(file.len(), ceiling),
        forall|i: int| 0 <= i < ids.len() ==> stores(#[trigger] replies[i], ids[i]),
    ensures
        crate::upload::run(
            crate::upload::begin_of(file, file_name, ceiling),
            replies.take(k),
        ) matches UploadStepView::Send(upload, request) && upload == upload_after(
            file,
            file_name,
            ceiling,
            ids,
            k,
        ) && request == upload.request(request.delay_ms) && upload.wf(),
        k < count_of(file.len(), ceiling) ==> (crate::upload::run(
            crate::upload::begin_of(file, file_name, ceiling),
            replies.take(k),
        ) matches UploadStepView::Send(_, request) && request.name == part_name_of(
            file_name,
            k as nat,
        ) && request.body == part_of(file, ceiling, k as nat) && request.kind
            == ContentKind::Binary),
    decreases k,
{
    let begin = crate::upload::begin_of(file, file_name, ceiling);
    if k == 0 {
        assert(replies.take(0) =~= Seq::<ReplyView>::empty());
        assert(ids.take(0) =~= Seq::<Seq<u8>>::empty());
        crate::split::lemma_count_is_least_cover(file.len(), ceiling);
    } else {
        lemma_upload_sends_parts_in_order(file, file_name, ceiling, ids, replies, k - 1);
        let before = upload_after(file, file_name, ceiling, ids, k - 1);
        assert(replies.take(k).drop_last() =~= replies.take(k - 1));
        assert(replies.take(k).last() == replies[k - 1]);
        assert(stores(replies[k - 1], ids[k - 1]));
        assert(is_id(ids[k - 1]));
        assert(ids.take(k - 1).push(ids[k - 1]) =~= ids.take(k));
        assert(before.with_part(ids[k - 1]) == upload_after(file, file_name, ceiling, ids, k));
        assert forall|i: int| 0 <= i < ids.take(k).len() implies is_id(#[trigger] ids.take(k)[i]) by {
            assert(ids.take(k)[i] == ids[i]);
        }
    }
}

/// Once every part is stored, the upload asks for the manifest to be stored:
/// a text object named after the file, which lists the identifiers in the
/// order in which the parts went out, whatever the identifiers are.
pub proof fn lemma_manifest_lists_ids_in_upload_order(
    file: Seq<u8>,
    file_name: Seq<u8>,
    ceiling: nat,
    ids: Seq<Seq<u8>>,
    replies: Seq<ReplyView>,
)
    requires
        0 < ceiling < file.len(),
        is_name(file_name),
        all_ids(ids),
        ids.len() == replies.len(),
        ids.len() == count_of(file.len(), ceiling),
        forall|i: int| 0 <= i < ids.len() ==> stores(#[trigger] replies[i], ids[i]),
    ensures
        crate::upload::run(
            crate::upload::begin_of(file, file_name, ceiling),
            replies,
        ) matches UploadStepView::Send(_, request) && request.name == manifest_name_of(file_name)
            && request.body == encoded(file_name, ids) && request.kind == ContentKind::Text,
        decoded_name(encoded(file_name, ids)) == file_name,
        decoded_ids(encoded(file_name, ids)) == ids,
{
    lemma_upload_sends_parts_in_order(file, file_name, ceiling, ids, replies, ids.len() as int);
    assert(replies.take(ids.len() as int) =~= replies);
    assert(ids.take(ids.len() as int) =~= ids);
    lemma_decode_of_encoded(file_name, ids);
}

/// The objects that come back during a download: the manifest text, then
/// the first `k` of `bodies`.
pub open spec fn fetched_of(text: Seq<u8>, bodies: Seq<Seq<u8>>, k: int) -> Seq<FetchedView> {
    seq![FetchedView::Body(text)] + Seq::new(k as nat, |i: int| FetchedView::Body(bodies[i]))
}

/// The download from `endpoint` once the manifest `text` is read and `k`
/// parts with the contents `bodies` are in the sink.
pub open spec fn download_after(
    endpoint: Seq<u8>,
    text: Seq<u8>,
    bodies: Seq<Seq<u8>>,
    k: int,
) -> DownloadView {
    DownloadView {
        endpoint,
        manifest_read: true,
        file_name: decoded_name(text),
        part_ids: decoded_ids(text),
        next: k as nat,
        written: joined(bodies.take(k)).len(),
    }
}

/// After the manifest and `k` parts, a download asks for the part that the
/// manifest lists at place `k`, and its sink holds the first `k` parts end to
/// end: parts are fetched and joined in the order of the manifest, whatever
/// the identifiers are.
pub proof fn lemma_download_fetches_in_manifest_order(
    endpoint: Seq<u8>,
    url: Seq<u8>,
    sink: Seq<u8>,
    text: Seq<u8>,
    bodies: Seq<Seq<u8>>,
    k: int,
)
    requires
        bodies.len() == decoded_ids(text).len(),
        0 <= k < bodies.len(),
    ensures
        crate::download::run(
            DownloadStepView::Fetch(crate::download::begin_of(endpoint), url),
            sink,
            fetched_of(text, bodies, k),
        ) == (
            DownloadStepView::Fetch(
                download_after(endpoint, text, bodies, k),
                object_url_of(endpoint, decoded_ids(text)[k]),
            ),
            sink + joined(bodies.take(k)),
        ),
    decreases k,
{
    let start = DownloadStepView::Fetch(crate::download::begin_of(endpoint), url);
    let events = fetched_of(text, bodies, k);
    if k == 0 {
        assert(events.drop_last() =~= Seq::<FetchedView>::empty());
        assert(events.last() == FetchedView::Body(text));
        assert(bodies.take(0) =~= Seq::<Seq<u8>>::empty());
        assert(sink + Seq::<u8>::empty() =~= sink);
        assert(crate::download::run(start, sink, events.drop_last()) == (start, sink));
    } else {
        lemma_download_fetches_in_manifest_order(endpoint, url, sink, text, bodies, k - 1);
        assert(events.drop_last() =~= fetched_of(text, bodies, k - 1));
        assert(events.last() == FetchedView::Body(bodies[k - 1]));
        lemma_joined_take(bodies, k);
        assert(sink + joined(bodies.take(k - 1)) + bodies[k - 1] =~= sink + joined(
            bodies.take(k),
        ));
    }
}

/// Joining one part more lengthens the result by that part.
pub proof fn lemma_joined_take(parts: Seq<Seq<u8>>, k: int)
    requires
        0 < k <= parts.len(),
    ensures
        joined(parts.take(k)) == joined(parts.take(k - 1)) + parts[k - 1],
{
    assert(parts.take(k).drop_last() =~= parts.take(k - 1));
    assert(parts.take(k).last() == parts[k - 1]);
}

/// A download over a manifest with parts ends, once the last part is in,
/// with the file name that the manifest records, with the sink holding all
/// parts end to end in manifest order after what it held before, and with
/// the count of the bytes that were put into it.
pub proof fn lemma_download_joins_all_parts(
    endpoint: Seq<u8>,
    url: Seq<u8>,
    sink: Seq<u8>,
    text: Seq<u8>,
    bodies: Seq<Seq<u8>>,
)
    requires
        bodies.len() == decoded_ids(text).len(),
        bodies.len() > 0,
    ensures
        crate::download::run(
            DownloadStepView::Fetch(crate::download::begin_of(endpoint), url),
            sink,
            fetched_of(text, bodies, bodies.len() as int),
        ) == (
            DownloadStepView::Finished {
                file_name: decoded_name(text),
                bytes_written: joined(bodies).len(),
            },
            sink + joined(bodies),
        ),
{
    let n = bodies.len() as int;
    let events = fetched_of(text, bodies, n);
    lemma_download_fetches_in_manifest_order(endpoint, url, sink, text, bodies, n - 1);
    assert(events.drop_last() =~= fetched_of(text, bodies, n - 1));
    assert(events.last() == FetchedView::Body(bodies[n - 1]));
    lemma_joined_take(bodies, n);
    assert(bodies.take(n) =~= bodies);
    assert(sink + joined(bodies.take(n - 1)) + bodies[n - 1] =~= sink + joined(bodies));
}

/// A download over a manifest without parts ends as soon as the manifest is
/// read, with nothing written.
pub proof fn lemma_download_without_parts(
    endpoint: Seq<u8>,
    url: Seq<u8>,
    sink: Seq<u8>,
    text: Seq<u8>,
)
    requires
        decoded_ids(text).len() == 0,
    ensures
        crate::download::run(
            DownloadStepView::Fetch(crate::download::begin_of(endpoint), url),
            sink,
            seq![FetchedView::Body(text)],
        ) == (
            DownloadStepView::Finished { file_name: decoded_name(text), bytes_written: 0 },
            sink,
        ),
{
    let start = DownloadStepView::Fetch(crate::download::begin_of(endpoint), url);
    let events = seq![FetchedView::Body(text)];
    assert(events.drop_last() =~= Seq::<FetchedView>::empty());
    assert(crate::download::run(start, sink, events.drop_last()) == (start, sink));
    assert(sink + Seq::<u8>::empty() =~= sink);
}

/// The contents that a store returns for the identifiers `ids`, in order.
pub open spec fn fetched_bodies(store: Map<Seq<u8>, Seq<u8>>, ids: Seq<Seq<u8>>) -> Seq<Seq<u8>> {
    Seq::new(ids.len(), |i: int| store[ids[i]])
}

/// Round trip. Let a file longer than the ceiling be uploaded under a name
/// without separator, let the service store each part under an identifier
/// that can be listed, and let it later return for each of these identifiers
/// the part that was stored under it. Then the manifest that the upload
/// writes, read by a download, leads to exactly the file, byte for byte,
/// after what the sink held before, under the name it was uploaded with.
pub proof fn lemma_round_trip(
    file: Seq<u8>,
    file_name: Seq<u8>,
    ceiling: nat,
    ids: Seq<Seq<u8>>,
    replies: Seq<ReplyView>,
    store: Map<Seq<u8>, Seq<u8>>,
    endpoint: Seq<u8>,
    url: Seq<u8>,
    sink: Seq<u8>,
)
    requires
        0 < ceiling < file.len(),
        is_name(file_name),
        all_ids(ids),
        ids.len() == replies.len(),
        ids.len() == count_of(file.len(), ceiling),
        forall|i: int| 0 <= i < ids.len() ==> stores(#[trigger] replies[i], ids[i]),
        forall|i: int|
            0 <= i < ids.len() ==> #[trigger] store[ids[i]] == part_of(file, ceiling, i as nat),
    ensures
        crate::upload::run(
            crate::upload::begin_of(file, file_name, ceiling),
            replies,
        ) matches UploadStepView::Send(_, request) && crate::download::run(
            DownloadStepView::Fetch(crate::download::begin_of(endpoint), url),
            sink,
            fetched_of(
                request.body,
                fetched_bodies(store, decoded_ids(request.body)),
                decoded_ids(request.body).len() as int,
            ),
        ) == (
            DownloadStepView::Finished { file_name, bytes_written: file.len() },
            sink + file,
        ),
{
    lemma_manifest_lists_ids_in_upload_order(file, file_name, ceiling, ids, replies);
    let text = encoded(file_name, ids);
    let bodies = fetched_bodies(store, ids);
    crate::split::lemma_count_is_least_cover(file.len(), ceiling);
    assert(bodies =~= parts_of(file, ceiling));
    lemma_join_of_parts(file, ceiling);
    lemma_download_joins_all_parts(endpoint, url, sink, text, bodies);
}

} // verus!
