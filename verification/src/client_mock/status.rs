//! gRPC statuses, the errors that a mocked call can end in.

use tonic::metadata::MetadataMap;
use vstd::prelude::*;

verus! {

/// `tonic::metadata::MetadataMap`, the metadata that travels with a status or a response.
#[verifier::external_type_specification]
#[verifier::external_body]
pub struct ExMetadataMap(tonic::metadata::MetadataMap);

/// What a metadata map holds: for each key, in lower case, its values in the order in which
/// they were added.
pub uninterp spec fn metadata_contents(metadata: MetadataMap) -> Map<Seq<char>, Seq<Seq<u8>>>;

/// The contents of a metadata map that nothing was added to.
pub open spec fn no_metadata() -> Map<Seq<char>, Seq<Seq<u8>>> {
    Map::empty()
}

/// Calls `tonic::metadata::MetadataMap::new`. The new map holds nothing.
#[verifier::external_body]
pub(crate) fn empty_metadata() -> (metadata: MetadataMap)
    ensures
        metadata_contents(metadata) == no_metadata(),
{
    MetadataMap::new()
}

/// Calls `MetadataMap::clone`. The copy holds the same keys with the same values.
#[verifier::external_body]
pub(crate) fn copy_metadata(metadata: &MetadataMap) -> (copy: MetadataMap)
    ensures
        metadata_contents(copy) == metadata_contents(*metadata),
{
    metadata.clone()
}

/// `tonic::Status`, the status of a call with everything that `tonic` keeps of it.
#[verifier::external_type_specification]
#[verifier::external_body]
pub struct ExTonicStatus(tonic::Status);

/// Calls `tonic::Status::clone`. The copy is the same status: its code, message, details and
/// metadata are copied, and it shares the error that it stems from.
#[verifier::external_body]
pub(crate) fn copy_tonic_status(status: &tonic::Status) -> (copy: tonic::Status)
    ensures
        copy == *status,
{
    status.clone()
}

/// The status codes that gRPC defines, in the order of their numbers.
#[derive(Clone, Copy, Debug, PartialEq, Eq, Structural)]
pub enum Code {
    /// The code `OK`
    Success,
    Cancelled,
    Unknown,
    InvalidArgument,
    DeadlineExceeded,
    NotFound,
    AlreadyExists,
    PermissionDenied,
    ResourceExhausted,
    FailedPrecondition,
    Aborted,
    OutOfRange,
    Unimplemented,
    Internal,
    Unavailable,
    DataLoss,
    Unauthenticated,
}

/// The result of a call that did not bring a response.
#[derive(Debug)]
pub struct MockStatus {
    /// The status code
    pub code: Code,
    /// The error message
    pub message: String,
    /// Opaque details
    pub details: Vec<u8>,
    /// Custom metadata
    pub metadata: MetadataMap,
    /// Where the status stems from an error: a status of `tonic` that holds the error as its
    /// source
    pub source: Option<tonic::Status>,
}

/// What a [`MockStatus`] says.
#[verifier::ext_equal]
pub struct StatusView {
    pub code: Code,
    pub message: Seq<char>,
    pub details: Seq<u8>,
    pub metadata: Map<Seq<char>, Seq<Seq<u8>>>,
    pub source: Option<tonic::Status>,
}

impl View for MockStatus {
    type V = StatusView;

    open spec fn view(&self) -> StatusView {
        StatusView {
            code: self.code,
            message: self.message@,
            details: self.details@,
            metadata: metadata_contents(self.metadata),
            source: self.source,
        }
    }
}

/// A status with a code and a message and nothing else.
pub open spec fn plain_status(code: Code, message: Seq<char>) -> StatusView {
    StatusView { code, message, details: Seq::empty(), metadata: no_metadata(), source: None }
}

impl MockStatus {
    /// Creates a status from a code and a message.
    pub fn new(code: Code, message: String) -> (status: MockStatus)
        ensures
            status@ == plain_status(code, message@),
            status.code == code,
            status.message == message,
            status.details@.len() == 0,
            status.source is None,
    {
        MockStatus { code, message, details: Vec::new(), metadata: empty_metadata(), source: None }
    }

    /// Creates a status for an operation that is not implemented.
    pub fn unimplemented(message: String) -> (status: MockStatus)
        ensures
            status@ == plain_status(Code::Unimplemented, message@),
            status.code == Code::Unimplemented,
            status.message == message,
            status.details@.len() == 0,
            status.source is None,
    {
        MockStatus::new(Code::Unimplemented, message)
    }

    /// Creates a status for an internal error.
    pub fn internal(message: String) -> (status: MockStatus)
        ensures
            status@ == plain_status(Code::Internal, message@),
            status.code == Code::Internal,
            status.message == message,
            status.details@.len() == 0,
            status.source is None,
    {
        MockStatus::new(Code::Internal, message)
    }
}

impl Clone for MockStatus {
    fn clone(&self) -> (copy: MockStatus)
        ensures
            copy@ == self@,
            copy.code == self.code,
            copy.message@ == self.message@,
            copy.details@ == self.details@,
            metadata_contents(copy.metadata) == metadata_contents(self.metadata),
            copy.source == self.source,
    {
        let details = self.details.clone();
        assert(details@ =~= self.details@);
        MockStatus {
            code: self.code,
            message: self.message.clone(),
            details,
            metadata: copy_metadata(&self.metadata),
            source: match &self.source {
                Some(source) => Some(copy_tonic_status(source)),
                None => None,
            },
        }
    }
}

/// The view of a status keeps all that the status holds: two statuses with one view have the
/// same code, message, details, metadata and source.
pub proof fn law_status_view_keeps_all(status: MockStatus)
    ensures
        status@.code == status.code,
        status@.message == status.message@,
        status@.details == status.details@,
        status@.metadata == metadata_contents(status.metadata),
        status@.source == status.source,
{
}

/// A plain status has its code and its message, and neither details nor metadata nor a source.
pub proof fn law_plain_status_holds_no_more(code: Code, message: Seq<char>, key: Seq<char>)
    ensures
        plain_status(code, message).code == code,
        plain_status(code, message).message == message,
        plain_status(code, message).details.len() == 0,
        !plain_status(code, message).metadata.contains_key(key),
        plain_status(code, message).source is None,
{
}

} // verus!
