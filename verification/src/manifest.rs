//! The manifest: the text that records a file's name and the identifiers of
//! its parts, in the order in which the parts are to be joined.
//!
//! On the wire it is the file name, then for each identifier a separator byte
//! and the identifier: `name NUL id NUL id ... NUL id`. A manifest without
//! identifiers is the name followed by one separator.

use crate::bytes::{append, holds};
use crate::error::TransferError;
use crate::split::contents;
use vstd::prelude::*;

verus! {

/// The byte that separates the fields of a manifest.
pub const SEPARATOR: u8 = 0;

/// A file's name and the identifiers of its parts, in order.
#[derive(Debug, PartialEq, Eq)]
pub struct Manifest {
    /// The name of the file that the parts make up.
    pub file_name: Vec<u8>,
    /// The identifiers of the parts, first part first.
    pub part_ids: Vec<Vec<u8>>,
}

/// Whether `s` can stand as a file name in a manifest: it holds no separator.
pub open spec fn is_name(s: Seq<u8>) -> bool {
    !s.contains(SEPARATOR)
}

/// Whether `s` can stand as an identifier in a manifest: it is not empty and
/// holds no separator.
pub open spec fn is_id(s: Seq<u8>) -> bool {
    s.len() > 0 && !s.contains(SEPARATOR)
}

/// Whether every entry of `ids` can stand as an identifier in a manifest.
pub open spec fn all_ids(ids: Seq<Seq<u8>>) -> bool {
    forall|i: int| 0 <= i < ids.len() ==> is_id(#[trigger] ids[i])
}

/// The identifiers in order, with a separator between neighbours.
pub open spec fn id_list(ids: Seq<Seq<u8>>) -> Seq<u8>
    decreases ids.len(),
{
    if ids.len() == 0 {
        Seq::empty()
    } else if ids.len() == 1 {
        ids[0]
    } else {
        id_list(ids.drop_last()) + seq![SEPARATOR] + ids.last()
    }
}

/// The manifest text for a file name and a list of identifiers.
pub open spec fn encoded(name: Seq<u8>, ids: Seq<Seq<u8>>) -> Seq<u8> {
    name + seq![SEPARATOR] + id_list(ids)
}

/// The pieces into which the separators cut `text`. There is always at least
/// one piece; pieces may be empty.
pub open spec fn segments(text: Seq<u8>) -> Seq<Seq<u8>>
    decreases text.len(),
{
    if text.len() == 0 {
        seq![Seq::empty()]
    } else {
        let before = segments(text.drop_last());
        if text.last() == SEPARATOR {
            before.push(Seq::empty())
        } else {
            before.drop_last().push(before.last().push(text.last()))
        }
    }
}

/// The file name that a manifest text records: its first piece.
pub open spec fn decoded_name(text: Seq<u8>) -> Seq<u8> {
    segments(text)[0]
}

/// The identifiers that a manifest text records: the pieces after the first,
/// in order. A text that ends right after its first separator records none.
pub open spec fn decoded_ids(text: Seq<u8>) -> Seq<Seq<u8>> {
    let pieces = segments(text);
    if pieces.len() == 2 && pieces[1].len() == 0 {
        Seq::empty()
    } else {
        pieces.skip(1)
    }
}

/// Every text has a first piece.
pub proof fn lemma_segments_nonempty(text: Seq<u8>)
    ensures
        segments(text).len() >= 1,
    decreases text.len(),
{
    if text.len() > 0 {
        lemma_segments_nonempty(text.drop_last());
    }
}

/// A text without a separator is one piece.
pub proof fn lemma_segments_of_plain(text: Seq<u8>)
    requires
        is_name(text),
    ensures
        segments(text) == seq![text],
    decreases text.len(),
{
    if text.len() == 0 {
        assert(text =~= Seq::<u8>::empty());
    } else {
        let front = text.drop_last();
        assert forall|i: int| 0 <= i < front.len() implies front[i] != SEPARATOR by {
            assert(text[i] == front[i]);
        }
        assert(text.last() == text[text.len() - 1]);
        lemma_segments_of_plain(front);
        assert(front.push(text.last()) =~= text);
        assert(segments(text) =~= seq![text]);
    }
}

/// Text without a separator, put after `text`, lengthens the last piece.
pub proof fn lemma_segments_append_plain(text: Seq<u8>, tail: Seq<u8>)
    requires
        is_name(tail),
    ensures
        segments(text + tail) == segments(text).drop_last().push(segments(text).last() + tail),
    decreases tail.len(),
{
    lemma_segments_nonempty(text);
    let pieces = segments(text);
    if tail.len() == 0 {
        assert(text + tail =~= text);
        assert(pieces.last() + tail =~= pieces.last());
        assert(pieces.drop_last().push(pieces.last()) =~= pieces);
    } else {
        let front = tail.drop_last();
        assert forall|i: int| 0 <= i < front.len() implies front[i] != SEPARATOR by {
            assert(tail[i] == front[i]);
        }
        assert(tail.last() == tail[tail.len() - 1]);
        lemma_segments_append_plain(text, front);
        assert((text + tail).drop_last() =~= text + front);
        assert((pieces.last() + front).push(tail.last()) =~= pieces.last() + tail);
        let mid = pieces.drop_last().push(pieces.last() + front);
        assert(mid.drop_last() =~= pieces.drop_last());
    }
}

/// A separator put after `text` opens a new, empty piece.
pub proof fn lemma_segments_append_separator(text: Seq<u8>)
    ensures
        segments(text + seq![SEPARATOR]) == segments(text).push(Seq::empty()),
{
    assert((text + seq![SEPARATOR]).drop_last() =~= text);
}

/// The pieces of a manifest text are the file name and then the identifiers.
pub proof fn lemma_segments_of_encoded(name: Seq<u8>, ids: Seq<Seq<u8>>)
    requires
        is_name(name),
        all_ids(ids),
    ensures
        segments(encoded(name, ids)) == if ids.len() == 0 {
            seq![name, Seq::empty()]
        } else {
            seq![name] + ids
        },
    decreases ids.len(),
{
    let head = name + seq![SEPARATOR];
    lemma_segments_of_plain(name);
    lemma_segments_append_separator(name);
    assert(segments(head) =~= seq![name, Seq::empty()]);
    if ids.len() == 0 {
        assert(encoded(name, ids) =~= head);
    } else if ids.len() == 1 {
        assert(is_id(ids[0]));
        assert(encoded(name, ids) =~= head + ids[0]);
        lemma_segments_append_plain(head, ids[0]);
        assert(Seq::<u8>::empty() + ids[0] =~= ids[0]);
        assert(segments(encoded(name, ids)) =~= seq![name] + ids);
    } else {
        let front = ids.drop_last();
        assert forall|i: int| 0 <= i < front.len() implies is_id(#[trigger] front[i]) by {
            assert(front[i] == ids[i]);
        }
        assert(is_id(ids[ids.len() - 1]));
        lemma_segments_of_encoded(name, front);
        let opened = encoded(name, front) + seq![SEPARATOR];
        lemma_segments_append_separator(encoded(name, front));
        lemma_segments_append_plain(opened, ids.last());
        assert(encoded(name, ids) =~= opened + ids.last());
        assert(Seq::<u8>::empty() + ids.last() =~= ids.last());
        assert(segments(encoded(name, ids)) =~= seq![name] + ids);
    }
}

/// Reading a manifest text gives back the file name and the identifiers that
/// it was written from, in the same order.
pub proof fn lemma_decode_of_encoded(name: Seq<u8>, ids: Seq<Seq<u8>>)
    requires
        is_name(name),
        all_ids(ids),
    ensures
        decoded_name(encoded(name, ids)) == name,
        decoded_ids(encoded(name, ids)) == ids,
{
    lemma_segments_of_encoded(name, ids);
    let pieces = segments(encoded(name, ids));
    if ids.len() == 0 {
        assert(decoded_ids(encoded(name, ids)) =~= ids);
    } else {
        assert(is_id(ids[0]));
        assert(pieces[1] == ids[0]);
        assert(pieces.skip(1) =~= ids);
    }
}

/// Whether `id` can stand as an identifier in a manifest.
pub fn is_valid_id(id: &[u8]) -> (r: bool)
    ensures
        r == is_id(id@),
{
    id.len() > 0 && !holds(id, SEPARATOR)
}

/// Whether `name` can stand as a file name in a manifest.
pub fn is_valid_name(name: &[u8]) -> (r: bool)
    ensures
        r == is_name(name@),
{
    !holds(name, SEPARATOR)
}

impl Manifest {
    /// The file name as a byte sequence.
    pub open spec fn name(&self) -> Seq<u8> {
        self.file_name@
    }

    /// The identifiers as byte sequences, in order.
    pub open spec fn ids(&self) -> Seq<Seq<u8>> {
        contents(self.part_ids@)
    }

    /// Whether the manifest can be written so that it reads back unchanged.
    pub open spec fn is_encodable(&self) -> bool {
        is_name(self.name()) && all_ids(self.ids())
    }

    /// Whether the manifest can be written so that it reads back unchanged.
    pub fn is_well_formed(&self) -> (r: bool)
        ensures
            r == self.is_encodable(),
    {
        if !is_valid_name(self.file_name.as_slice()) {
            return false;
        }
        let mut index: usize = 0;
        while index < self.part_ids.len()
            invariant
                index <= self.part_ids.len(),
                forall|i: int| 0 <= i < index ==> is_id(#[trigger] self.ids()[i]),
            decreases self.part_ids.len() - index,
        {
            if !is_valid_id(self.part_ids[index].as_slice()) {
                assert(!is_id(self.ids()[index as int]));
                return false;
            }
            index += 1;
        }
        true
    }

    /// The manifest text for the name and the identifiers as they are.
    pub(crate) fn write(&self) -> (text: Vec<u8>)
        ensures
            text@ == encoded(self.name(), self.ids()),
    {
        let mut text: Vec<u8> = Vec::new();
        append(&mut text, self.file_name.as_slice());
        text.push(SEPARATOR);
        let mut index: usize = 0;
        while index < self.part_ids.len()
            invariant
                index <= self.part_ids.len(),
                text@ == encoded(self.name(), self.ids().take(index as int)),
            decreases self.part_ids.len() - index,
        {
            let ghost before = self.ids().take(index as int);
            let ghost after = self.ids().take(index + 1);
            assert(after.drop_last() =~= before);
            assert(after.last() == self.part_ids@[index as int]@);
            if index > 0 {
                text.push(SEPARATOR);
            }
            append(&mut text, self.part_ids[index].as_slice());
            assert(text@ =~= encoded(self.name(), after));
            index += 1;
        }
        assert(self.ids().take(self.part_ids.len() as int) =~= self.ids());
        text
    }

    /// Writes the manifest text. A file name or an identifier that holds the
    /// separator, or an empty identifier, is refused.
    pub fn encode(&self) -> (r: Result<Vec<u8>, TransferError>)
        ensures
            match r {
                Ok(text) => self.is_encodable() && text@ == encoded(self.name(), self.ids()),
                Err(e) => !self.is_encodable() && e == TransferError::ManifestMalformed,
            },
    {
        if self.is_well_formed() {
            Ok(self.write())
        } else {
            Err(TransferError::ManifestMalformed)
        }
    }

    /// Reads a manifest text. Every text is a manifest: what stands before
    /// the first separator, or the whole text where there is none, is the
    /// file name.
    pub fn decode(text: &[u8]) -> (m: Manifest)
        ensures
            m.name() == decoded_name(text@),
            m.ids() == decoded_ids(text@),
    {
        let mut pieces: Vec<Vec<u8>> = Vec::new();
        let mut current: Vec<u8> = Vec::new();
        let mut index: usize = 0;
        assert(contents(pieces@).push(current@) =~= segments(text@.take(0)));
        while index < text.len()
            invariant
                index <= text.len(),
                contents(pieces@).push(current@) == segments(text@.take(index as int)),
            decreases text.len() - index,
        {
            let byte: u8 = text[index];
            let ghost seen = text@.take(index + 1);
            let ghost done = contents(pieces@);
            let ghost open = current@;
            assert(seen.drop_last() =~= text@.take(index as int));
            assert(seen.last() == byte);
            assert(done.push(open).drop_last() =~= done);
            if byte == SEPARATOR {
                pieces.push(current);
                current = Vec::new();
                assert(contents(pieces@) =~= done.push(open));
            } else {
                current.push(byte);
            }
            assert(contents(pieces@).push(current@) =~= segments(seen));
            index += 1;
        }
        assert(text@.take(text.len() as int) =~= text@);
        pieces.push(current);
        assert(contents(pieces@) =~= segments(text@));
        let file_name: Vec<u8> = pieces.remove(0);
        assert(contents(pieces@) =~= segments(text@).skip(1));
        if pieces.len() == 1 && pieces[0].len() == 0 {
            pieces = Vec::new();
            assert(contents(pieces@) =~= Seq::<Seq<u8>>::empty());
        }
        Manifest { file_name, part_ids: pieces }
    }
}

} // verus!
