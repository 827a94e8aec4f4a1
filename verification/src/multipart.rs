//! Multipart form data: limits, request validation, field counting, upload
//! progress and the errors a multipart body can end in.

use vstd::prelude::*;
use vstd::string::*;
use vstd::utf8::*;
use crate::headers::{header_str, header_text};
use crate::num::{parse_unsigned, parse_unsigned_spec};
use crate::rejection::MultipartRejection;
use crate::response::{only_headers, Response};
use crate::text::{decimal, decimal_spec};

verus! {

#[verifier::external_type_specification]
#[verifier::external_body]
pub struct ExPathBuf(std::path::PathBuf);

/// Limits for multipart parsing.
#[derive(Debug, Clone, Copy, PartialEq, Eq, Structural)]
pub struct MultipartConstraints {
    /// Maximum number of fields. Default: 100.
    pub max_fields: usize,
    /// Maximum size of a single field in bytes. Default: 5 MiB.
    pub max_field_size: u64,
    /// Maximum size of the whole body in bytes. Default: 50 MiB.
    pub max_total_size: u64,
}

impl Default for MultipartConstraints {
    fn default() -> (r: MultipartConstraints)
        ensures
            r.max_fields == 100,
            r.max_field_size == 5242880,
            r.max_total_size == 52428800,
    {
        MultipartConstraints {
            max_fields: 100,
            max_field_size: 5 * 1024 * 1024,
            max_total_size: 50 * 1024 * 1024,
        }
    }
}

impl MultipartConstraints {
    /// The default limits.
    pub fn new() -> (r: MultipartConstraints)
        ensures
            r.max_fields == 100,
            r.max_field_size == 5242880,
            r.max_total_size == 52428800,
    {
        MultipartConstraints::default()
    }

    /// Set the maximum number of fields.
    pub fn max_fields(self, max: usize) -> (r: MultipartConstraints)
        ensures
            r == (MultipartConstraints { max_fields: max, ..self }),
    {
        MultipartConstraints { max_fields: max, ..self }
    }

    /// Set the maximum size of a single field.
    pub fn max_field_size(self, max: u64) -> (r: MultipartConstraints)
        ensures
            r == (MultipartConstraints { max_field_size: max, ..self }),
    {
        MultipartConstraints { max_field_size: max, ..self }
    }

    /// Set the maximum size of the whole body.
    pub fn max_total_size(self, max: u64) -> (r: MultipartConstraints)
        ensures
            r == (MultipartConstraints { max_total_size: max, ..self }),
    {
        MultipartConstraints { max_total_size: max, ..self }
    }
}

/// Multipart limits together with the directory for temporary upload files.
#[derive(Debug, Clone)]
pub struct MultipartConfig {
    constraints: MultipartConstraints,
    temp_dir: Option<std::path::PathBuf>,
}

impl MultipartConfig {
    /// Default limits and the system temporary directory.
    pub fn new() -> (r: MultipartConfig)
        ensures
            r.constraints_view() == MultipartConstraints::new_spec(),
            r.temp_dir_view() is None,
    {
        MultipartConfig { constraints: MultipartConstraints::default(), temp_dir: None }
    }

    pub closed spec fn constraints_view(&self) -> MultipartConstraints {
        self.constraints
    }

    pub closed spec fn temp_dir_view(&self) -> Option<std::path::PathBuf> {
        self.temp_dir
    }

    /// The limits.
    pub fn constraints(&self) -> (r: MultipartConstraints)
        ensures
            r == self.constraints_view(),
    {
        self.constraints
    }

    /// The directory for temporary upload files, if one was set.
    pub fn temp_dir(&self) -> (r: Option<&std::path::PathBuf>)
        ensures
            match r {
                Some(p) => self.temp_dir_view() == Some(*p),
                None => self.temp_dir_view() is None,
            },
    {
        match &self.temp_dir {
            Some(p) => Some(p),
            None => None,
        }
    }

    /// Replace the limits.
    pub fn with_constraints(self, constraints: MultipartConstraints) -> (r: MultipartConfig)
        ensures
            r.constraints_view() == constraints,
            r.temp_dir_view() == self.temp_dir_view(),
    {
        MultipartConfig { constraints, ..self }
    }

    /// Set the maximum number of fields.
    pub fn max_fields(self, max: usize) -> (r: MultipartConfig)
        ensures
            r.constraints_view() == (MultipartConstraints { max_fields: max, ..self.constraints_view() }),
            r.temp_dir_view() == self.temp_dir_view(),
    {
        let c = self.constraints.max_fields(max);
        MultipartConfig { constraints: c, ..self }
    }

    /// Set the maximum size of a single field.
    pub fn max_field_size(self, max: u64) -> (r: MultipartConfig)
        ensures
            r.constraints_view() == (MultipartConstraints { max_field_size: max, ..self.constraints_view() }),
            r.temp_dir_view() == self.temp_dir_view(),
    {
        let c = self.constraints.max_field_size(max);
        MultipartConfig { constraints: c, ..self }
    }

    /// Set the maximum size of the whole body.
    pub fn max_total_size(self, max: u64) -> (r: MultipartConfig)
        ensures
            r.constraints_view() == (MultipartConstraints { max_total_size: max, ..self.constraints_view() }),
            r.temp_dir_view() == self.temp_dir_view(),
    {
        let c = self.constraints.max_total_size(max);
        MultipartConfig { constraints: c, ..self }
    }

    /// Set the directory for temporary upload files.
    pub fn with_temp_dir(self, dir: std::path::PathBuf) -> (r: MultipartConfig)
        ensures
            r.constraints_view() == self.constraints_view(),
            r.temp_dir_view() == Some(dir),
    {
        MultipartConfig { temp_dir: Some(dir), ..self }
    }
}

impl MultipartConstraints {
    pub open spec fn new_spec() -> MultipartConstraints {
        MultipartConstraints { max_fields: 100, max_field_size: 5242880, max_total_size: 52428800 }
    }
}

/// How `multer::parse_boundary` fails.
#[derive(Debug, Clone, PartialEq, Eq)]
pub enum BoundaryError {
    /// The content type does not parse as a media type.
    DecodeContentType,
    /// The media type is not `multipart/form-data`.
    NoMultipart,
    /// There is no `boundary` parameter.
    NoBoundary,
    /// Any other parser error, with its message.
    Other(String),
}

/// What `multer::parse_boundary` yields for a content type.
pub uninterp spec fn boundary_of(content_type: Seq<char>) -> Result<Seq<char>, BoundaryError>;

/// `multer::parse_boundary`: the `boundary` parameter of a `multipart/form-data` type.
#[verifier::external_body]
fn parse_boundary(content_type: &str) -> (r: Result<String, BoundaryError>)
    ensures
        match r {
            Ok(b) => boundary_of(content_type@) == Ok::<Seq<char>, BoundaryError>(b@),
            Err(e) => boundary_of(content_type@) == Err::<Seq<char>, BoundaryError>(e),
        },
{
    match multer::parse_boundary(content_type) {
        Ok(b) => Ok(b),
        Err(multer::Error::DecodeContentType(_)) => Err(BoundaryError::DecodeContentType),
        Err(multer::Error::NoMultipart) => Err(BoundaryError::NoMultipart),
        Err(multer::Error::NoBoundary) => Err(BoundaryError::NoBoundary),
        Err(e) => Err(BoundaryError::Other(e.to_string())),
    }
}

/// The declared body length, when `Content-Length` is a decimal `u64`.
pub open spec fn declared_length(h: http::HeaderMap) -> Option<nat> {
    match header_text(h, "content-length"@) {
        Some(v) => parse_unsigned_spec(v, 18446744073709551615),
        None => None,
    }
}

/// The outcome of validating a multipart request: the boundary, or the rejection.
pub open spec fn multipart_validation(h: http::HeaderMap, c: MultipartConstraints) -> Result<
    Seq<char>,
    MultipartRejection,
> {
    if declared_length(h) is Some && declared_length(h)->0 > c.max_total_size {
        Err(MultipartRejection::PayloadTooLarge)
    } else {
        match header_text(h, "content-type"@) {
            None => Err(MultipartRejection::InvalidContentType),
            Some(ct) => match boundary_of(ct) {
                Ok(b) => Ok(b),
                Err(BoundaryError::NoBoundary) => Err(MultipartRejection::MissingBoundary),
                Err(BoundaryError::NoMultipart) => Err(MultipartRejection::InvalidContentType),
                Err(BoundaryError::DecodeContentType) => Err(MultipartRejection::InvalidContentType),
                Err(BoundaryError::Other(m)) => Err(MultipartRejection::MultipartError(m)),
            },
        }
    }
}

/// Same rejection: the same variant with the same message text.
pub open spec fn same_rejection(a: MultipartRejection, b: MultipartRejection) -> bool {
    match (a, b) {
        (MultipartRejection::MultipartError(x), MultipartRejection::MultipartError(y)) => x@ == y@,
        (MultipartRejection::InvalidContentType, MultipartRejection::InvalidContentType) => true,
        (MultipartRejection::MissingBoundary, MultipartRejection::MissingBoundary) => true,
        (MultipartRejection::PayloadTooLarge, MultipartRejection::PayloadTooLarge) => true,
        _ => false,
    }
}

/// Check the declared length and the content type of a multipart request and
/// return its boundary.
pub fn validate_multipart_request(headers: &http::HeaderMap, config: &MultipartConfig) -> (r:
    Result<String, MultipartRejection>)
    ensures
        match (r, multipart_validation(*headers, config.constraints_view())) {
            (Ok(b), Ok(sb)) => b@ == sb,
            (Err(e), Err(se)) => same_rejection(e, se),
            _ => false,
        },
{
    proof {
        reveal_strlit("content-length");
        reveal_strlit("content-type");
    }
    if let Some(v) = header_str(headers, "content-length") {
        if let Some(len) = parse_unsigned(v.as_str(), 18446744073709551615) {
            if len > config.constraints.max_total_size {
                return Err(MultipartRejection::PayloadTooLarge);
            }
        }
    }
    let content_type = match header_str(headers, "content-type") {
        Some(ct) => ct,
        None => return Err(MultipartRejection::InvalidContentType),
    };
    match parse_boundary(content_type.as_str()) {
        Ok(b) => Ok(b),
        Err(BoundaryError::NoBoundary) => Err(MultipartRejection::MissingBoundary),
        Err(BoundaryError::NoMultipart) => Err(MultipartRejection::InvalidContentType),
        Err(BoundaryError::DecodeContentType) => Err(MultipartRejection::InvalidContentType),
        Err(BoundaryError::Other(m)) => Err(MultipartRejection::MultipartError(m)),
    }
}

/// What went wrong inside the multipart parser.
#[derive(Debug, Clone, Copy, PartialEq, Eq, Structural)]
pub enum ParserErrorKind {
    /// A field exceeded the per-field size limit.
    FieldSizeExceeded,
    /// The body exceeded the whole-stream size limit.
    StreamSizeExceeded,
    /// Any other parser error.
    Other,
}

/// An error that occurs while reading a multipart body.
#[derive(Debug)]
pub enum MultipartError {
    /// The parser failed; its kind and message.
    Parser { kind: ParserErrorKind, message: String },
    /// More fields than `max_fields` arrived.
    TooManyFields { limit: usize },
    /// Writing a temporary file failed; the I/O error's message.
    Io(String),
}

/// The message of a multipart error.
pub open spec fn multipart_error_message(e: MultipartError) -> Seq<char> {
    match e {
        MultipartError::Parser { message, .. } => "Multipart error: "@ + message@,
        MultipartError::TooManyFields { limit } => "Multipart field count exceeded limit: "@
            + decimal_spec(limit as nat),
        MultipartError::Io(m) => "Multipart temporary file error: "@ + m@,
    }
}

/// The status a multipart error is answered with.
pub open spec fn multipart_error_status(e: MultipartError) -> u16 {
    match e {
        MultipartError::Parser { kind: ParserErrorKind::FieldSizeExceeded, .. } => 413,
        MultipartError::Parser { kind: ParserErrorKind::StreamSizeExceeded, .. } => 413,
        MultipartError::TooManyFields { .. } => 413,
        MultipartError::Io(_) => 500,
        _ => 400,
    }
}

/// Every exceeded limit is answered `413 Payload Too Large`: a field over the
/// per-field size, a body over the whole-stream size, or too many fields. A
/// temporary-file failure is a server error (`500`), and any other parser
/// error is the client's (`400`).
pub proof fn lemma_limit_errors_are_413(e: MultipartError)
    ensures
        (e matches MultipartError::Parser { kind, .. } && kind != ParserErrorKind::Other)
            ==> multipart_error_status(e) == 413,
        e is TooManyFields ==> multipart_error_status(e) == 413,
        e is Io ==> multipart_error_status(e) == 500,
        (e matches MultipartError::Parser { kind, .. } && kind == ParserErrorKind::Other)
            ==> multipart_error_status(e) == 400,
{
}

impl MultipartError {
    /// A field or the whole stream exceeded a size limit.
    pub fn is_size_exceeded(&self) -> (r: bool)
        ensures
            r == (*self matches MultipartError::Parser { kind, .. } && (kind
                != ParserErrorKind::Other)),
    {
        match self {
            MultipartError::Parser { kind: ParserErrorKind::FieldSizeExceeded, .. } => true,
            MultipartError::Parser { kind: ParserErrorKind::StreamSizeExceeded, .. } => true,
            _ => false,
        }
    }

    /// The field count limit was exceeded.
    pub fn is_too_many_fields(&self) -> (r: bool)
        ensures
            r == (*self is TooManyFields),
    {
        matches!(self, MultipartError::TooManyFields { .. })
    }

    /// Some configured limit was exceeded.
    pub fn is_limit_exceeded(&self) -> (r: bool)
        ensures
            r == ((*self matches MultipartError::Parser { kind, .. } && (kind
                != ParserErrorKind::Other)) || *self is TooManyFields),
    {
        self.is_size_exceeded() || self.is_too_many_fields()
    }

    /// Writing a temporary file failed.
    pub fn is_io(&self) -> (r: bool)
        ensures
            r == (*self is Io),
    {
        matches!(self, MultipartError::Io(_))
    }

    /// `413` for exceeded limits, `500` for I/O errors, `400` otherwise.
    pub fn status_code(&self) -> (r: u16)
        ensures
            r == multipart_error_status(*self),
    {
        match self {
            MultipartError::Parser { kind: ParserErrorKind::FieldSizeExceeded, .. } => 413,
            MultipartError::Parser { kind: ParserErrorKind::StreamSizeExceeded, .. } => 413,
            MultipartError::TooManyFields { .. } => 413,
            MultipartError::Io(_) => 500,
            _ => 400,
        }
    }

    /// The message shown to the client.
    pub fn message(&self) -> (r: String)
        ensures
            r@ == multipart_error_message(*self),
    {
        match self {
            MultipartError::Parser { message, .. } => {
                let mut m = "Multipart error: ".to_owned();
                m.append(message.as_str());
                m
            },
            MultipartError::TooManyFields { limit } => {
                let mut m = "Multipart field count exceeded limit: ".to_owned();
                let d = decimal(*limit as u64);
                m.append(d.as_str());
                m
            },
            MultipartError::Io(e) => {
                let mut m = "Multipart temporary file error: ".to_owned();
                m.append(e.as_str());
                m
            },
        }
    }

    /// The status with the message as plain text.
    pub fn into_response(self) -> (r: Response)
        ensures
            r.status == multipart_error_status(self),
            only_headers(r.headers, seq![("content-type"@, "text/plain; charset=utf-8"@)]),
            r.body@ == encode_utf8(multipart_error_message(self)),
    {
        proof {
            reveal_strlit("text/plain; charset=utf-8");
        }
        let status = self.status_code();
        let m = self.message();
        Response::with_text(status, "text/plain; charset=utf-8", m.as_str())
    }
}

/// Counts the fields read from a multipart body and refuses those past the limit.
pub struct FieldCounter {
    fields_read: usize,
    max_fields: usize,
}

impl FieldCounter {
    /// No fields read yet, with the given limit.
    pub fn new(max_fields: usize) -> (r: FieldCounter)
        ensures
            r.read() == 0,
            r.limit() == max_fields,
            r.wf(),
    {
        FieldCounter { fields_read: 0, max_fields }
    }

    pub closed spec fn read(&self) -> nat {
        self.fields_read as nat
    }

    pub closed spec fn limit(&self) -> nat {
        self.max_fields as nat
    }

    /// Never more fields counted than the limit.
    pub closed spec fn wf(&self) -> bool {
        self.fields_read <= self.max_fields
    }

    /// Account for one more field: admitted while fewer than `max_fields` were
    /// read, otherwise refused with `TooManyFields`.
    pub fn count_field(&mut self) -> (r: Result<(), MultipartError>)
        requires
            old(self).wf(),
        ensures
            final(self).wf(),
            final(self).limit() == old(self).limit(),
            old(self).read() < old(self).limit() ==> r is Ok && final(self).read() == old(self).read() + 1,
            old(self).read() >= old(self).limit() ==> final(self).read() == old(self).read(),
            old(self).read() >= old(self).limit() ==> (r matches Err(MultipartError::TooManyFields { limit }) && limit == old(self).limit()),
    {
        if self.fields_read >= self.max_fields {
            return Err(MultipartError::TooManyFields { limit: self.max_fields });
        }
        self.fields_read = self.fields_read + 1;
        Ok(())
    }
}

/// A chunk of field data with the number of bytes read from the field so far.
#[derive(Debug, Clone)]
pub struct ProgressChunk {
    bytes: Vec<u8>,
    bytes_read: u64,
}

impl ProgressChunk {
    pub closed spec fn bytes_view(&self) -> Seq<u8> {
        self.bytes@
    }

    pub closed spec fn bytes_read_view(&self) -> u64 {
        self.bytes_read
    }

    /// The chunk's bytes.
    pub fn bytes(&self) -> (r: &Vec<u8>)
        ensures
            r@ == self.bytes_view(),
    {
        &self.bytes
    }

    /// The chunk's bytes, consuming it.
    pub fn into_bytes(self) -> (r: Vec<u8>)
        ensures
            r@ == self.bytes_view(),
    {
        self.bytes
    }

    /// The chunk's length.
    pub fn len(&self) -> (r: usize)
        ensures
            r == self.bytes_view().len(),
    {
        self.bytes.len()
    }

    /// Whether the chunk is empty.
    pub fn is_empty(&self) -> (r: bool)
        ensures
            r == (self.bytes_view().len() == 0),
    {
        self.bytes.len() == 0
    }

    /// Bytes read from the field, this chunk included.
    pub fn bytes_read(&self) -> (r: u64)
        ensures
            r == self.bytes_read_view(),
    {
        self.bytes_read
    }
}

/// Running total of the bytes read from a field.
pub struct ProgressCounter {
    bytes_read: u64,
}

impl ProgressCounter {
    /// Nothing read yet.
    pub fn new() -> (r: ProgressCounter)
        ensures
            r.total() == 0,
    {
        ProgressCounter { bytes_read: 0 }
    }

    pub closed spec fn total(&self) -> nat {
        self.bytes_read as nat
    }

    /// Account for a chunk and tag it with the total so far.
    pub fn record(&mut self, bytes: Vec<u8>) -> (r: ProgressChunk)
        requires
            old(self).total() + bytes@.len() <= u64::MAX,
        ensures
            final(self).total() == old(self).total() + bytes@.len(),
            r.bytes_view() == bytes@,
            r.bytes_read_view() as nat == final(self).total(),
    {
        self.bytes_read = self.bytes_read + bytes.len() as u64;
        ProgressChunk { bytes, bytes_read: self.bytes_read }
    }
}

/// The total length of a run of chunks.
pub open spec fn chunks_len(chunks: Seq<Seq<u8>>) -> nat
    decreases chunks.len(),
{
    if chunks.len() == 0 {
        0
    } else {
        chunks_len(chunks.drop_last()) + chunks.last().len()
    }
}

/// A run of chunks recorded one after another by one counter that started
/// fresh: `tags[i]` is the `bytes_read` that `record` gave `chunks[i]`, each
/// the tag before it (0 for the first) plus the chunk's length. Then every
/// tag is the running sum of the lengths up to its chunk, so the tags never
/// decrease, grow at every non-empty chunk, and the last is the length of
/// all the bytes read.
pub proof fn lemma_progress_running_sum(chunks: Seq<Seq<u8>>, tags: Seq<nat>)
    requires
        tags.len() == chunks.len(),
        tags.len() > 0 ==> tags[0] == chunks[0].len(),
        forall|i: int| 0 < i < tags.len() ==> #[trigger] tags[i] == tags[i - 1] + chunks[i].len(),
    ensures
        forall|i: int| 0 <= i < tags.len() ==> #[trigger] tags[i] == chunks_len(chunks.take(i + 1)),
        forall|i: int, j: int| 0 <= i <= j < tags.len() ==> tags[i] <= tags[j],
        forall|i: int|
            0 < i < tags.len() && chunks[i].len() > 0 ==> tags[i - 1] < #[trigger] tags[i],
        tags.len() > 0 ==> tags.last() == chunks_len(chunks),
    decreases chunks.len(),
{
    if chunks.len() > 0 {
        let n = chunks.len() - 1;
        lemma_progress_running_sum(chunks.drop_last(), tags.drop_last());
        assert forall|i: int| 0 <= i < tags.len() implies #[trigger] tags[i] == chunks_len(
            chunks.take(i + 1),
        ) by {
            if i < n {
                assert(tags[i] == tags.drop_last()[i]);
                assert(tags.drop_last()[i] == chunks_len(chunks.drop_last().take(i + 1)));
                assert(chunks.take(i + 1) =~= chunks.drop_last().take(i + 1));
                assert(tags[i] == chunks_len(chunks.take(i + 1)));
            } else if i == 0 {
                assert(chunks.take(1).drop_last() =~= Seq::<Seq<u8>>::empty());
                assert(chunks.take(1).last() == chunks[0]);
                assert(chunks_len(chunks.take(1)) == chunks_len(chunks.take(1).drop_last()) + chunks[0].len());
                assert(tags[i] == chunks_len(chunks.take(i + 1)));
            } else {
                assert(tags[i - 1] == tags.drop_last()[i - 1]);
                assert(tags.drop_last()[i - 1] == chunks_len(chunks.drop_last().take(i)));
                assert(chunks.take(i + 1).drop_last() =~= chunks.drop_last().take(i));
                assert(chunks.take(i + 1).last() == chunks[i]);
                assert(tags[i] == chunks_len(chunks.take(i + 1)));
            }
        }
        assert forall|i: int, j: int| 0 <= i <= j < tags.len() implies tags[i] <= tags[j] by {
            if j < n {
                assert(tags[i] == tags.drop_last()[i]);
                assert(tags[j] == tags.drop_last()[j]);
            } else if i < j {
                assert(tags[i] == tags.drop_last()[i]);
                assert(tags[j - 1] == tags.drop_last()[j - 1]);
            }
        }
        assert(chunks.take(n + 1) =~= chunks);
    }
}

} // verus!
