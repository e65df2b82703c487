//! The object-store writer's side of a flush: where a batch is stored, under
//! which name, and the calls that store it.
//!
//! The library decides; the caller performs. An [`Upload`] names the
//! container, the path of the object, and the steps to take in order: create
//! the object, append bytes at an offset, then flush at the final offset and
//! close.

use crate::buffer::Flush;
use crate::text::{
    decimal, decimal_text, free_of, is_digit, join, join_with, lemma_decimal,
    lemma_decimal_tells_the_number, lemma_split_join, split,
};
use crate::time::{random_identifier, unix_seconds_now};
use bytes::Bytes;
use vstd::prelude::*;
use vstd::string::StringExecFns;
use vstd::utf8::{decode_utf8, encode_utf8, encode_utf8_decode_utf8};

verus! {

#[verifier::external_type_specification]
#[verifier::external_body]
pub struct ExBytes(bytes::Bytes);

/// The bytes that a buffer holds, first to last.
pub uninterp spec fn bytes_of(buffer: bytes::Bytes) -> Seq<u8>;

/// The UTF-8 bytes of a text, as a buffer.
///
/// Calls `Bytes::from(String)`, which takes over the string's bytes as they
/// are. Trusted: the buffer holds the UTF-8 encoding of the text.
#[verifier::external_body]
pub(crate) fn text_bytes(text: String) -> (buffer: Bytes)
    ensures
        bytes_of(buffer) == encode_utf8(text@),
{
    Bytes::from(text)
}

/// The number of bytes in a buffer.
///
/// Calls `Bytes::len`. Trusted: the result is the length of what the buffer
/// holds.
#[verifier::external_body]
pub(crate) fn byte_count(buffer: &Bytes) -> (count: usize)
    ensures
        count == bytes_of(*buffer).len(),
{
    buffer.len()
}

/// One call to the object store.
#[derive(Debug, PartialEq, Eq)]
pub enum StoreStep {
    /// Create the object, empty.
    Create,
    /// Append `data` at `offset`.
    Append { offset: i64, data: Bytes },
    /// Flush what was appended, up to `offset`, and close the object.
    FlushAndClose { offset: i64 },
}

/// What a [`StoreStep`] holds, as mathematical values.
pub enum StoreStepView {
    Create,
    Append { offset: int, data: Seq<u8> },
    FlushAndClose { offset: int },
}

impl View for StoreStep {
    type V = StoreStepView;

    open spec fn view(&self) -> StoreStepView {
        match *self {
            StoreStep::Create => StoreStepView::Create,
            StoreStep::Append { offset, data } => StoreStepView::Append {
                offset: offset as int,
                data: bytes_of(data),
            },
            StoreStep::FlushAndClose { offset } => StoreStepView::FlushAndClose {
                offset: offset as int,
            },
        }
    }
}

impl DeepView for StoreStep {
    type V = StoreStepView;

    open spec fn deep_view(&self) -> StoreStepView {
        self@
    }
}

/// The storing of one object: the container, the path of the object in it,
/// and the calls to make, in order.
#[derive(Debug, PartialEq, Eq)]
pub struct Upload {
    pub container: String,
    pub file_path: String,
    pub steps: Vec<StoreStep>,
}

/// The content is larger than an offset can say.
#[derive(Debug, Clone, Copy, PartialEq, Eq)]
pub enum UploadError {
    ContentTooLarge,
}

/// Where flushed batches go: the container, the directory that precedes
/// every destination key, and the extension of the objects.
#[derive(Debug, Clone, PartialEq, Eq)]
pub struct StorageTarget {
    pub container: String,
    pub prefix: String,
    pub extension: String,
}

impl Default for StorageTarget {
    /// Container `raw`, directory `rust-tests`, extension `json`.
    fn default() -> (target: StorageTarget)
        ensures
            target.container@ == "raw"@,
            target.prefix@ == "rust-tests"@,
            target.extension@ == "json"@,
    {
        StorageTarget {
            container: String::from_str("raw"),
            prefix: String::from_str("rust-tests"),
            extension: String::from_str("json"),
        }
    }
}

/// The name of a stored object: the time of writing in seconds, a unique
/// identifier, and the extension.
pub open spec fn object_name(seconds: int, identifier: Seq<char>, extension: Seq<char>) -> Seq<
    char,
> {
    decimal(seconds) + "-"@ + identifier + "."@ + extension
}

/// The path of an object in a directory.
pub open spec fn object_path(directory: Seq<char>, name: Seq<char>) -> Seq<char> {
    directory + "/"@ + name
}

/// The directory of a destination key under a prefix.
pub open spec fn key_directory(prefix: Seq<char>, key: Seq<char>) -> Seq<char> {
    prefix + "/"@ + key
}

/// The content of a batch: its payloads, one per line.
pub open spec fn batch_content(payloads: Seq<Seq<char>>) -> Seq<char> {
    join(payloads, '\n')
}

/// The steps that store `content` in one piece.
pub open spec fn steps_in_one_piece(content: Seq<u8>) -> Seq<StoreStepView> {
    seq![
        StoreStepView::Create,
        StoreStepView::Append { offset: 0, data: content },
        StoreStepView::FlushAndClose { offset: content.len() as int },
    ]
}

/// The number of bytes that `items` take, one appended after the other.
pub open spec fn total_bytes(items: Seq<Seq<char>>) -> nat
    decreases items.len(),
{
    if items.len() == 0 {
        0
    } else {
        total_bytes(items.drop_last()) + encode_utf8(items.last()).len()
    }
}

/// The steps that store `items` one by one: each is appended where the one
/// before it ends.
pub open spec fn steps_item_by_item(items: Seq<Seq<char>>) -> Seq<StoreStepView> {
    seq![StoreStepView::Create] + Seq::new(
        items.len(),
        |i: int|
            StoreStepView::Append {
                offset: total_bytes(items.take(i)) as int,
                data: encode_utf8(items[i]),
            },
    ) + seq![StoreStepView::FlushAndClose { offset: total_bytes(items) as int }]
}

/// The content of a batch, split at its line ends, is the batch: the same
/// payloads in the same order. This holds of a batch that is not empty and
/// whose payloads hold no line end themselves.
pub proof fn lemma_batch_content_splits_into_the_payloads(payloads: Seq<Seq<char>>)
    requires
        payloads.len() > 0,
        forall|i: int| 0 <= i < payloads.len() ==> free_of(#[trigger] payloads[i], '\n'),
    ensures
        split(batch_content(payloads), '\n') == payloads,
        split(decode_utf8(encode_utf8(batch_content(payloads))), '\n') == payloads,
{
    lemma_split_join(payloads, '\n');
    encode_utf8_decode_utf8(batch_content(payloads));
}

/// Object names do not collide: two names with the same extension are the
/// same only where both the time and the identifier are the same. A fresh
/// identifier therefore gives a fresh name, whatever the time.
pub proof fn lemma_object_names_are_distinct(
    first_seconds: int,
    first_identifier: Seq<char>,
    second_seconds: int,
    second_identifier: Seq<char>,
    extension: Seq<char>,
)
    requires
        object_name(first_seconds, first_identifier, extension) == object_name(
            second_seconds,
            second_identifier,
            extension,
        ),
    ensures
        first_seconds == second_seconds,
        first_identifier == second_identifier,
{
    reveal_strlit("-");
    reveal_strlit(".");
    let first = object_name(first_seconds, first_identifier, extension);
    let second = object_name(second_seconds, second_identifier, extension);
    let a = decimal(first_seconds);
    let b = decimal(second_seconds);
    lemma_decimal(first_seconds);
    lemma_decimal(second_seconds);
    assert(first[a.len() as int] == '-');
    assert(second[b.len() as int] == '-');
    if a.len() < b.len() {
        assert(second[a.len() as int] == b[a.len() as int]);
        assert(is_digit(b[a.len() as int]));
    }
    if b.len() < a.len() {
        assert(first[b.len() as int] == a[b.len() as int]);
        assert(is_digit(a[b.len() as int]));
    }
    assert(a == first.take(a.len() as int));
    assert(b == second.take(b.len() as int));
    lemma_decimal_tells_the_number(first_seconds, second_seconds);
    assert(first.len() == a.len() + 1 + first_identifier.len() + 1 + extension.len());
    assert(second.len() == b.len() + 1 + second_identifier.len() + 1 + extension.len());
    let from = a.len() as int + 1;
    assert(first_identifier == first.subrange(from, from + first_identifier.len()));
    assert(second_identifier == second.subrange(from, from + second_identifier.len()));
}

/// A longer list takes at least as many bytes.
pub proof fn lemma_total_bytes_grows(items: Seq<Seq<char>>, count: int)
    requires
        0 <= count <= items.len(),
    ensures
        total_bytes(items.take(count)) <= total_bytes(items),
    decreases items.len() - count,
{
    if count < items.len() {
        lemma_total_bytes_grows(items, count + 1);
        assert(items.take(count + 1).drop_last() == items.take(count));
    } else {
        assert(items.take(count) == items);
    }
}

fn fits_offset(count: usize) -> (fits: bool)
    ensures
        fits == (count <= i64::MAX),
{
    count as u64 <= 0x7fff_ffff_ffff_ffff
}

/// The batch's content: its payloads, one per line.
pub fn join_lines(payloads: &Vec<String>) -> (content: String)
    ensures
        content@ == batch_content(payloads.deep_view()),
{
    proof {
        reveal_strlit("\n");
    }
    assert("\n"@ =~= seq!['\n']);
    join_with(payloads, '\n', "\n")
}

/// The storing of a batch as one object named after a time and an
/// identifier. The object lies in `directory`; its content is the payloads,
/// one per line, appended in one piece.
pub fn plan_batch_upload(
    container: String,
    directory: &str,
    data: &Vec<String>,
    extension: &str,
    seconds: i64,
    identifier: &str,
) -> (r: Result<Upload, UploadError>)
    ensures
        match r {
            Ok(upload) => {
                &&& encode_utf8(batch_content(data.deep_view())).len() <= i64::MAX
                &&& upload.container == container
                &&& upload.file_path@ == object_path(
                    directory@,
                    object_name(seconds as int, identifier@, extension@),
                )
                &&& upload.steps.deep_view() == steps_in_one_piece(
                    encode_utf8(batch_content(data.deep_view())),
                )
            },
            Err(error) => {
                &&& encode_utf8(batch_content(data.deep_view())).len() > i64::MAX
                &&& error == UploadError::ContentTooLarge
            },
        },
{
    let content = text_bytes(join_lines(data));
    let size = byte_count(&content);
    if !fits_offset(size) {
        return Err(UploadError::ContentTooLarge);
    }
    let mut file_path = String::from_str(directory);
    file_path.append("/");
    file_path.append(decimal_text(seconds).as_str());
    file_path.append("-");
    file_path.append(identifier);
    file_path.append(".");
    file_path.append(extension);
    proof {
        assert(file_path@ == object_path(
            directory@,
            object_name(seconds as int, identifier@, extension@),
        ));
    }
    let mut steps: Vec<StoreStep> = Vec::new();
    steps.push(StoreStep::Create);
    steps.push(StoreStep::Append { offset: 0, data: content });
    steps.push(StoreStep::FlushAndClose { offset: size as i64 });
    assert(steps.deep_view() == steps_in_one_piece(encode_utf8(batch_content(data.deep_view()))));
    Ok(Upload { container, file_path, steps })
}

/// The storing of a batch as one object with a fresh name: the current time
/// in seconds, a random identifier, and `ext`. The object lies in `path`;
/// its content is the payloads of `data`, one per line, appended in one
/// piece.
pub fn upload_json_multiline(container: String, path: String, data: Vec<String>, ext: String) -> (r:
    Result<Upload, UploadError>)
    ensures
        match r {
            Ok(upload) => {
                &&& encode_utf8(batch_content(data.deep_view())).len() <= i64::MAX
                &&& upload.container == container
                &&& upload.steps.deep_view() == steps_in_one_piece(
                    encode_utf8(batch_content(data.deep_view())),
                )
                &&& exists|seconds: int, identifier: Seq<char>|
                    upload.file_path@ == object_path(
                        path@,
                        #[trigger] object_name(seconds, identifier, ext@),
                    )
            },
            Err(error) => {
                &&& encode_utf8(batch_content(data.deep_view())).len() > i64::MAX
                &&& error == UploadError::ContentTooLarge
            },
        },
{
    let seconds = unix_seconds_now();
    let identifier = random_identifier();
    let r = plan_batch_upload(
        container,
        path.as_str(),
        &data,
        ext.as_str(),
        seconds,
        identifier.as_str(),
    );
    proof {
        if r is Ok {
            assert(r->Ok_0.file_path@ == object_path(
                path@,
                object_name(seconds as int, identifier@, ext@),
            ));
        }
    }
    r
}

/// The storing of `data` as the object `path`, one item appended after the
/// other.
pub fn upload_data_single(container: String, path: String, data: Vec<String>) -> (r: Result<
    Upload,
    UploadError,
>)
    ensures
        match r {
            Ok(upload) => {
                &&& total_bytes(data.deep_view()) <= i64::MAX
                &&& upload.container == container
                &&& upload.file_path == path
                &&& upload.steps.deep_view() == steps_item_by_item(data.deep_view())
            },
            Err(error) => {
                &&& total_bytes(data.deep_view()) > i64::MAX
                &&& error == UploadError::ContentTooLarge
            },
        },
{
    let ghost items = data.deep_view();
    let mut steps: Vec<StoreStep> = Vec::new();
    steps.push(StoreStep::Create);
    let mut offset: i64 = 0;
    let mut i: usize = 0;
    assert(items.take(0) == Seq::<Seq<char>>::empty());
    while i < data.len()
        invariant
            i <= data.len(),
            items == data.deep_view(),
            offset == total_bytes(items.take(i as int)),
            steps.deep_view() == steps_item_by_item(items).take(i + 1),
        decreases data.len() - i,
    {
        let content = text_bytes(data[i].clone());
        let size = byte_count(&content);
        proof {
            assert(items.take(i + 1).drop_last() == items.take(i as int));
            assert(items.take(i + 1).last() == data@[i as int]@);
            lemma_total_bytes_grows(items, i + 1);
        }
        if !fits_offset(size) || size as i64 > i64::MAX - offset {
            return Err(UploadError::ContentTooLarge);
        }
        let ghost before = steps.deep_view();
        steps.push(StoreStep::Append { offset, data: content });
        proof {
            assert(steps.deep_view() == before.push(
                StoreStepView::Append { offset: offset as int, data: encode_utf8(items[i as int]) },
            ));
            assert(steps_item_by_item(items).take(i + 2) == steps_item_by_item(items).take(
                i + 1,
            ).push(steps_item_by_item(items)[i + 1]));
        }
        offset = offset + size as i64;
        i += 1;
    }
    let ghost before = steps.deep_view();
    steps.push(StoreStep::FlushAndClose { offset });
    proof {
        assert(items.take(i as int) == items);
        assert(steps.deep_view() == before.push(
            StoreStepView::FlushAndClose { offset: offset as int },
        ));
        assert(steps.deep_view() == steps_item_by_item(items));
    }
    Ok(Upload { container, file_path: path, steps })
}

/// The storing of a flushed batch at a target: the object lies in the
/// directory of the batch's destination key under the target's prefix, and
/// gets a fresh name with the target's extension.
pub fn upload_flush(target: &StorageTarget, flush: Flush) -> (r: Result<Upload, UploadError>)
    ensures
        match r {
            Ok(upload) => {
                &&& encode_utf8(batch_content(flush@.payloads)).len() <= i64::MAX
                &&& upload.container@ == target.container@
                &&& upload.steps.deep_view() == steps_in_one_piece(
                    encode_utf8(batch_content(flush@.payloads)),
                )
                &&& exists|seconds: int, identifier: Seq<char>|
                    upload.file_path@ == object_path(
                        key_directory(target.prefix@, flush@.path),
                        #[trigger] object_name(seconds, identifier, target.extension@),
                    )
            },
            Err(error) => {
                &&& encode_utf8(batch_content(flush@.payloads)).len() > i64::MAX
                &&& error == UploadError::ContentTooLarge
            },
        },
{
    let mut directory = target.prefix.clone();
    directory.append("/");
    directory.append(flush.path.as_str());
    upload_json_multiline(
        target.container.clone(),
        directory,
        flush.payloads,
        target.extension.clone(),
    )
}

} // verus!
