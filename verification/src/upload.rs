//! An image that a browser uploads chunk by chunk.

use crate::status::VERSION_CHARS;
use crate::text::byte_length;
use crate::transfer::{
    chunk_count, chunk_data, chunk_end, joined_chunks, lemma_chunk_bounds, lemma_chunk_count,
    lemma_chunks_make_the_image,
};
use vstd::prelude::*;

verus! {

/// The smallest chunk of an upload.
pub const UPLOAD_CHUNK_MIN: usize = 1024;

/// The largest chunk of an upload.
pub const UPLOAD_CHUNK_MAX: usize = 65_536;

/// An image whose chunks are coming in.
#[derive(Debug)]
pub struct FirmwareUpload {
    pub expected_size: usize,
    pub chunk_size: usize,
    pub version: String,
    pub image_sha256: String,
    pub chunks: Vec<Option<Vec<u8>>>,
    pub received_bytes: usize,
}

/// What an upload holds.
pub ghost struct Upload {
    pub expected_size: int,
    pub chunk_size: int,
    pub version: Seq<char>,
    pub image_sha256: Seq<char>,
    pub chunks: Seq<Option<Seq<u8>>>,
}

/// The bytes of a chunk that may not be there yet.
pub open spec fn chunk_view(chunk: Option<Vec<u8>>) -> Option<Seq<u8>> {
    match chunk {
        Some(data) => Some(data@),
        None => None,
    }
}

/// The bytes of the chunks.
pub open spec fn chunk_views(chunks: Seq<Option<Vec<u8>>>) -> Seq<Option<Seq<u8>>> {
    chunks.map_values(|chunk: Option<Vec<u8>>| chunk_view(chunk))
}

impl View for FirmwareUpload {
    type V = Upload;

    open spec fn view(&self) -> Upload {
        Upload {
            expected_size: self.expected_size as int,
            chunk_size: self.chunk_size as int,
            version: self.version@,
            image_sha256: self.image_sha256@,
            chunks: chunk_views(self.chunks@),
        }
    }
}

/// The bytes in the first `count` chunks.
pub open spec fn bytes_in(chunks: Seq<Option<Seq<u8>>>, count: int) -> int
    decreases count,
{
    if count <= 0 {
        0
    } else {
        bytes_in(chunks, count - 1) + match chunks[count - 1] {
            Some(data) => data.len() as int,
            None => 0,
        }
    }
}

/// The first `count` chunks, one after the other; a missing chunk counts as empty.
pub open spec fn assembled(chunks: Seq<Option<Seq<u8>>>, count: int) -> Seq<u8>
    decreases count,
{
    if count <= 0 {
        Seq::empty()
    } else {
        assembled(chunks, count - 1) + match chunks[count - 1] {
            Some(data) => data,
            None => Seq::empty(),
        }
    }
}

impl Upload {
    /// The sizes agree: as many chunks as the image takes, each of the length that its place gives
    /// it.
    pub open spec fn consistent(self) -> bool {
        &&& 0 < self.expected_size
        &&& UPLOAD_CHUNK_MIN <= self.chunk_size <= UPLOAD_CHUNK_MAX
        &&& self.chunks.len() == chunk_count(self.expected_size, self.chunk_size)
        &&& forall|i: int|
            0 <= i < self.chunks.len() && (#[trigger] self.chunks[i]) is Some
                ==> self.chunks[i]->0.len() == self.length_of(i)
        &&& byte_length(self.version) <= VERSION_CHARS
    }

    /// The length of the chunk with the given index.
    pub open spec fn length_of(self, index: int) -> int {
        chunk_end(self.expected_size, self.chunk_size, index) - index * self.chunk_size
    }

    /// Every chunk is there.
    pub open spec fn complete(self) -> bool {
        forall|i: int| 0 <= i < self.chunks.len() ==> (#[trigger] self.chunks[i]) is Some
    }

    /// The bytes that are there.
    pub open spec fn received(self) -> int {
        bytes_in(self.chunks, self.chunks.len() as int)
    }

    /// The image that the chunks make.
    pub open spec fn image(self) -> Seq<u8> {
        assembled(self.chunks, self.chunks.len() as int)
    }

    /// The upload with the data in the place of one chunk.
    pub open spec fn with_chunk(self, index: int, data: Seq<u8>) -> Upload {
        Upload { chunks: self.chunks.update(index, Some(data)), ..self }
    }
}

impl FirmwareUpload {
    /// The sizes agree, and the received bytes are counted.
    pub open spec fn well_formed(self) -> bool {
        self@.consistent() && self.received_bytes == self@.received()
    }
}

proof fn lemma_bytes_in(upload: Upload, count: int)
    requires
        upload.consistent(),
        0 <= count <= upload.chunks.len(),
    ensures
        0 <= bytes_in(upload.chunks, count) <= (if count == 0 {
            0
        } else {
            chunk_end(upload.expected_size, upload.chunk_size, count - 1)
        }),
        assembled(upload.chunks, count).len() == bytes_in(upload.chunks, count),
        (forall|i: int| 0 <= i < count ==> (#[trigger] upload.chunks[i]) is Some) ==> bytes_in(
            upload.chunks,
            count,
        ) == (if count == 0 {
            0
        } else {
            chunk_end(upload.expected_size, upload.chunk_size, count - 1)
        }),
    decreases count,
{
    if count > 0 {
        lemma_bytes_in(upload, count - 1);
        lemma_chunk_bounds(upload.expected_size, upload.chunk_size, count - 1);
        if count > 1 {
            lemma_chunk_bounds(upload.expected_size, upload.chunk_size, count - 2);
        }
        if upload.chunks[count - 1] is Some {
            assert(upload.chunks[count - 1]->0.len() == upload.length_of(count - 1));
        }
    }
}

/// No more bytes are received than expected, all of them exactly when every chunk is there, and
/// then the image has the expected size.
pub proof fn lemma_received_bytes(upload: Upload)
    requires
        upload.consistent(),
    ensures
        0 <= upload.received() <= upload.expected_size,
        upload.complete() ==> upload.received() == upload.expected_size,
        upload.image().len() == upload.received(),
{
    let count = upload.chunks.len() as int;
    lemma_chunk_count(upload.expected_size, upload.chunk_size);
    lemma_bytes_in(upload, count);
    lemma_chunk_bounds(upload.expected_size, upload.chunk_size, count - 1);
}

proof fn lemma_bytes_in_unchanged(
    before: Seq<Option<Seq<u8>>>,
    after: Seq<Option<Seq<u8>>>,
    count: int,
)
    requires
        0 <= count <= before.len(),
        before.len() == after.len(),
        forall|i: int| 0 <= i < count ==> before[i] == after[i],
    ensures
        bytes_in(before, count) == bytes_in(after, count),
    decreases count,
{
    if count > 0 {
        lemma_bytes_in_unchanged(before, after, count - 1);
    }
}

proof fn lemma_bytes_in_update(
    chunks: Seq<Option<Seq<u8>>>,
    index: int,
    data: Seq<u8>,
    count: int,
)
    requires
        0 <= index < count <= chunks.len(),
        chunks[index] is None,
    ensures
        bytes_in(chunks.update(index, Some(data)), count) == bytes_in(chunks, count) + data.len(),
    decreases count,
{
    let after = chunks.update(index, Some(data));
    if count - 1 == index {
        lemma_bytes_in_unchanged(chunks, after, count - 1);
    } else {
        lemma_bytes_in_update(chunks, index, data, count - 1);
    }
}

/// A chunk of the right length for a place that is still empty adds its bytes, and the upload stays
/// consistent.
pub proof fn lemma_with_chunk(upload: Upload, index: int, data: Seq<u8>)
    requires
        upload.consistent(),
        0 <= index < upload.chunks.len(),
        upload.chunks[index] is None,
        data.len() == upload.length_of(index),
    ensures
        upload.with_chunk(index, data).consistent(),
        upload.with_chunk(index, data).received() == upload.received() + data.len(),
{
    lemma_bytes_in_update(upload.chunks, index, data, upload.chunks.len() as int);
}

proof fn lemma_assembled_chunks(image: Seq<u8>, upload: Upload, count: int)
    requires
        0 <= count <= upload.chunks.len(),
        forall|i: int|
            0 <= i < upload.chunks.len() ==> (#[trigger] upload.chunks[i]) == Some(
                chunk_data(image, upload.chunk_size, i),
            ),
    ensures
        assembled(upload.chunks, count) == joined_chunks(image, upload.chunk_size, count),
    decreases count,
{
    if count > 0 {
        lemma_assembled_chunks(image, upload, count - 1);
        assert(upload.chunks[count - 1] == Some(
            chunk_data(image, upload.chunk_size, count - 1),
        ));
    }
}

/// An upload whose chunks are those of an image makes that image, in whatever order they came in.
pub proof fn lemma_upload_makes_the_image(image: Seq<u8>, upload: Upload)
    requires
        upload.consistent(),
        upload.expected_size == image.len(),
        forall|i: int|
            0 <= i < upload.chunks.len() ==> (#[trigger] upload.chunks[i]) == Some(
                chunk_data(image, upload.chunk_size, i),
            ),
    ensures
        upload.complete(),
        upload.image() == image,
{
    lemma_assembled_chunks(image, upload, upload.chunks.len() as int);
    lemma_chunks_make_the_image(image, upload.chunk_size);
}

/// The chunks of an upload, one after the other.
pub fn assemble(upload: &FirmwareUpload) -> (image: Vec<u8>)
    requires
        upload.well_formed(),
    ensures
        image@ == upload@.image(),
{
    let mut image: Vec<u8> = Vec::new();
    for index in 0..upload.chunks.len()
        invariant
            image@ == assembled(upload@.chunks, index as int),
    {
        let ghost before = image@;
        assert(upload@.chunks[index as int] == chunk_view(upload.chunks@[index as int]));
        match &upload.chunks[index] {
            Some(data) => {
                image.extend_from_slice(data.as_slice());
                assert(image@ =~= before + data@);
            },
            None => {
                assert(image@ =~= before + Seq::empty());
            },
        }
    }
    image
}

/// Whether every chunk is there.
pub fn is_complete(upload: &FirmwareUpload) -> (result: bool)
    ensures
        result == upload@.complete(),
{
    for index in 0..upload.chunks.len()
        invariant
            forall|i: int| 0 <= i < index ==> (#[trigger] upload@.chunks[i]) is Some,
    {
        assert(upload@.chunks[index as int] == chunk_view(upload.chunks@[index as int]));
        if upload.chunks[index].is_none() {
            return false;
        }
    }
    true
}

/// A list of chunks none of which is there yet.
pub(crate) fn empty_chunks(count: usize) -> (chunks: Vec<Option<Vec<u8>>>)
    ensures
        chunk_views(chunks@) == Seq::new(count as nat, |i: int| None::<Seq<u8>>),
{
    let mut chunks: Vec<Option<Vec<u8>>> = Vec::new();
    for index in 0..count
        invariant
            chunks@ == Seq::new(index as nat, |i: int| None::<Vec<u8>>),
    {
        chunks.push(None);
        assert(chunks@ =~= Seq::new((index + 1) as nat, |i: int| None::<Vec<u8>>));
    }
    assert(chunk_views(chunks@) =~= Seq::new(count as nat, |i: int| None::<Seq<u8>>));
    chunks
}

/// An upload that has just started.
pub open spec fn new_upload(
    expected_size: int,
    chunk_size: int,
    version: Seq<char>,
    image_sha256: Seq<char>,
) -> Upload {
    Upload {
        expected_size,
        chunk_size,
        version,
        image_sha256,
        chunks: Seq::new(
            chunk_count(expected_size, chunk_size) as nat,
            |i: int| None::<Seq<u8>>,
        ),
    }
}

pub(crate) proof fn lemma_empty_bytes_in(chunks: Seq<Option<Seq<u8>>>, count: int)
    requires
        0 <= count <= chunks.len(),
        forall|i: int| 0 <= i < chunks.len() ==> chunks[i] is None,
    ensures
        bytes_in(chunks, count) == 0,
    decreases count,
{
    if count > 0 {
        lemma_empty_bytes_in(chunks, count - 1);
    }
}

} // verus!
