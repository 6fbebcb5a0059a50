//! External processing of TCP streams.

use vstd::prelude::*;
use vstd::string::*;

#[allow(unused_imports)]
use crate::metadata_context::{
    build_processing_metadata_context, eval_to_struct, evaluated_fields, namespaces_view,
    processing_namespaces, Evaluated, Fields,
};

verus! {

/// The namespace of the attributes in messages to the processor.
pub const NETWORK_EXTPROC_ATTRIBUTES_NAMESPACE: &'static str = "envoy.filters.network.ext_proc";

/// How long an answer is waited for where nothing is configured, in milliseconds.
pub const DEFAULT_MESSAGE_TIMEOUT_MS: u64 = 200;

/// How many bytes are read at once.
pub const READ_BUFFER_BYTES: usize = 16384;

/// Whether the data of a direction is sent to the processor.
#[derive(Debug, Clone, Copy, PartialEq, Eq, Structural)]
pub enum DataSendMode {
    Streamed,
    Skip,
}

impl Default for DataSendMode {
    fn default() -> (r: Self)
        ensures
            r == DataSendMode::Streamed,
    {
        DataSendMode::Streamed
    }
}

/// The configuration of external processing. Expressions are held by their texts.
#[derive(Debug)]
pub struct NetworkExtProc {
    /// Whether bytes are passed on unprocessed where the processor cannot be reached.
    pub failure_mode_allow: bool,
    /// What happens to data from the client.
    pub process_read: DataSendMode,
    /// What happens to data to the client.
    pub process_write: DataSendMode,
    /// How long an answer is waited for, in milliseconds; zero stands for the default.
    pub message_timeout_ms: u64,
    pub metadata_context: Option<Vec<(String, Vec<(String, String)>)>>,
    pub connection_attributes: Option<Vec<(String, String)>>,
}

impl NetworkExtProc {
    /// How long an answer is waited for, in milliseconds.
    pub open spec fn waits_for(self) -> u64 {
        if self.message_timeout_ms > 0 {
            self.message_timeout_ms
        } else {
            DEFAULT_MESSAGE_TIMEOUT_MS
        }
    }

    /// How long an answer is waited for, in milliseconds.
    pub fn message_timeout(&self) -> (r: u64)
        ensures
            r == self.waits_for(),
            r == if self.message_timeout_ms == 0 {
                DEFAULT_MESSAGE_TIMEOUT_MS
            } else {
                self.message_timeout_ms
            },
    {
        if self.message_timeout_ms == 0 {
            DEFAULT_MESSAGE_TIMEOUT_MS
        } else {
            self.message_timeout_ms
        }
    }
}

/// What goes with every message of a connection.
#[derive(Debug)]
pub struct RequestContext {
    pub metadata: Vec<(String, Fields)>,
    pub attributes: Vec<(String, Fields)>,
}

impl NetworkExtProc {
    /// What goes with every message of a connection. `metadata` and `attributes` are the evaluated
    /// expressions; they count where expressions are configured. The attributes stand under their
    /// namespace, where there are any.
    pub fn evaluate_request_context(
        &self,
        metadata: Vec<(String, Evaluated)>,
        attributes: Evaluated,
    ) -> (r: RequestContext)
        ensures
            namespaces_view(r.metadata@) == (if self.metadata_context is Some {
                processing_namespaces(metadata@)
            } else {
                Seq::empty()
            }),
            namespaces_view(r.attributes@) == (if self.connection_attributes is Some
                && evaluated_fields(attributes@).len() > 0 {
                seq![(NETWORK_EXTPROC_ATTRIBUTES_NAMESPACE@, evaluated_fields(attributes@))]
            } else {
                Seq::empty()
            }),
    {
        let configured = match &self.metadata_context {
            Some(_) => Some(metadata),
            None => None,
        };
        let metadata = match build_processing_metadata_context(configured) {
            Some(metadata) => metadata,
            None => {
                let metadata: Vec<(String, Fields)> = Vec::new();
                assert(namespaces_view(metadata@) =~= Seq::empty());
                metadata
            },
        };
        let mut named: Vec<(String, Fields)> = Vec::new();
        assert(namespaces_view(named@) =~= Seq::empty());
        if let Some(_) = &self.connection_attributes {
            let fields = eval_to_struct(attributes);
            if fields.len() > 0 {
                named.push((NETWORK_EXTPROC_ATTRIBUTES_NAMESPACE.to_owned(), fields));
                assert(namespaces_view(named@) =~= seq![
                    (NETWORK_EXTPROC_ATTRIBUTES_NAMESPACE@, fields@),
                ]);
            }
        }
        RequestContext { metadata, attributes: named }
    }
}

/// Why a connection failed.
#[derive(Debug)]
pub enum Error {
    /// The stream to the processor failed.
    Grpc(String),
    /// The processor did not answer.
    StreamClosed,
    /// The processor answered with data of the other direction.
    WrongDirection,
    /// A peer could not be read from or written to.
    Io(String),
}

/// The text of an error.
pub open spec fn error_text(e: Error) -> Seq<char> {
    match e {
        Error::Grpc(status) => "network ext_proc stream failed: "@ + status@,
        Error::StreamClosed => "network ext_proc stream closed before responding"@,
        Error::WrongDirection =>
            "network ext_proc response did not match the processed direction"@,
        Error::Io(text) => text@,
    }
}

impl Error {
    /// Whether the processor could not be reached.
    pub open spec fn unreachable(self) -> bool {
        self is Grpc || self is StreamClosed
    }

    /// The text of this error.
    pub fn message(&self) -> (r: String)
        ensures
            r@ == error_text(*self),
    {
        match self {
            Error::Grpc(status) => "network ext_proc stream failed: ".to_owned().concat(
                status.as_str(),
            ),
            Error::StreamClosed =>
                "network ext_proc stream closed before responding".to_owned(),
            Error::WrongDirection =>
                "network ext_proc response did not match the processed direction".to_owned(),
            Error::Io(text) => text.clone(),
        }
    }
}

/// Data of one direction.
#[derive(Debug)]
pub struct Data {
    pub data: Vec<u8>,
    pub end_of_stream: bool,
}

/// What the processor did to the data.
#[derive(Debug, Clone, Copy, PartialEq, Eq, Structural)]
pub enum DataProcessedStatus {
    Unknown,
    Unmodified,
    Modified,
}

/// What the processor wants to become of the connection.
#[derive(Debug, Clone, Copy, PartialEq, Eq, Structural)]
pub enum ConnectionStatus {
    Continue,
    Close,
    CloseRst,
    /// A value that has no name.
    Unrecognized,
}

/// What is sent to the processor.
#[derive(Debug)]
pub struct ProcessingRequest {
    pub read_data: Option<Data>,
    pub write_data: Option<Data>,
}

/// What the processor answers.
#[derive(Debug)]
pub struct ProcessingResponse {
    pub read_data: Option<Data>,
    pub write_data: Option<Data>,
    pub data_processing_status: DataProcessedStatus,
    pub connection_status: ConnectionStatus,
}

/// The message with data of a direction.
pub open spec fn request_for(read: bool, data: Vec<u8>, end_of_stream: bool) -> ProcessingRequest {
    let given = Some(Data { data, end_of_stream });
    if read {
        ProcessingRequest { read_data: given, write_data: None }
    } else {
        ProcessingRequest { read_data: None, write_data: given }
    }
}

/// The message with data of a direction; `read` is the direction from the client.
pub fn processing_request(read: bool, data: Vec<u8>, end_of_stream: bool) -> (r: ProcessingRequest)
    ensures
        r == (ProcessingRequest {
            read_data: if read {
                Some(Data { data, end_of_stream })
            } else {
                None
            },
            write_data: if read {
                None
            } else {
                Some(Data { data, end_of_stream })
            },
        }),
        r == request_for(read, data, end_of_stream),
{
    let data = Data { data, end_of_stream };
    if read {
        ProcessingRequest { read_data: Some(data), write_data: None }
    } else {
        ProcessingRequest { read_data: None, write_data: Some(data) }
    }
}

/// What becomes of data: what replaces it, if anything does, and whether the connection ends.
pub open spec fn processed_data(read: bool, response: ProcessingResponse) -> Result<
    (Option<Vec<u8>>, bool),
    Error,
> {
    let close = response.connection_status != ConnectionStatus::Continue;
    if response.data_processing_status == DataProcessedStatus::Modified {
        match if read {
            response.read_data
        } else {
            response.write_data
        } {
            Some(data) => Ok((Some(data.data), close)),
            None => Err(Error::WrongDirection),
        }
    } else {
        Ok((None, close))
    }
}

/// What becomes of data, given the answer of the processor. The error is for an answer that is
/// said to have changed the data and has none of its direction.
pub fn process_response(read: bool, response: ProcessingResponse) -> (r: Result<
    (Option<Vec<u8>>, bool),
    Error,
>)
    ensures
        r == processed_data(read, response),
{
    let close = response.connection_status != ConnectionStatus::Continue;
    if response.data_processing_status == DataProcessedStatus::Modified {
        let data = if read {
            response.read_data
        } else {
            response.write_data
        };
        match data {
            Some(data) => Ok((Some(data.data), close)),
            None => Err(Error::WrongDirection),
        }
    } else {
        Ok((None, close))
    }
}

/// One direction of a connection.
#[derive(Debug)]
pub struct Copier {
    /// Whether this is the direction from the client.
    pub read: bool,
    pub mode: DataSendMode,
    pub failure_mode_allow: bool,
}

/// What a direction does next.
#[derive(Debug)]
pub enum CopyStep {
    /// It asks the processor about data, which it keeps until the answer comes.
    Process { data: Vec<u8>, end_of_stream: bool },
    /// It writes bytes, and reads on.
    Write(Vec<u8>),
    /// It shuts the writing side down, and ends.
    Shutdown,
    /// It fails.
    Fail(Error),
}

impl Copier {
    /// What is done with what was read.
    pub open spec fn reads(self, data: Vec<u8>) -> CopyStep {
        let at_end = data@.len() == 0;
        if self.mode == DataSendMode::Streamed {
            CopyStep::Process { data, end_of_stream: at_end }
        } else if at_end {
            CopyStep::Shutdown
        } else {
            CopyStep::Write(data)
        }
    }

    /// Takes in what was read: nothing at the end.
    pub fn on_read(&self, data: Vec<u8>) -> (r: CopyStep)
        ensures
            r == match self.mode {
                DataSendMode::Streamed => CopyStep::Process {
                    data,
                    end_of_stream: data@.len() == 0,
                },
                DataSendMode::Skip => if data@.len() == 0 {
                    CopyStep::Shutdown
                } else {
                    CopyStep::Write(data)
                },
            },
            r == self.reads(data),
    {
        let end_of_stream = data.len() == 0;
        match self.mode {
            DataSendMode::Streamed => CopyStep::Process { data, end_of_stream },
            DataSendMode::Skip => {
                if end_of_stream {
                    CopyStep::Shutdown
                } else {
                    CopyStep::Write(data)
                }
            },
        }
    }

    /// Whether a failure is passed over: the processor could not be reached, and that is allowed.
    pub open spec fn passes_over(self, outcome: Result<(Option<Vec<u8>>, bool), Error>) -> bool {
        self.failure_mode_allow && (outcome matches Err(e) && e.unreachable())
    }

    /// What follows the outcome of processing `data`.
    pub open spec fn after(
        self,
        data: Vec<u8>,
        end_of_stream: bool,
        outcome: Result<(Option<Vec<u8>>, bool), Error>,
    ) -> CopyStep {
        match outcome {
            Err(e) => if !self.passes_over(outcome) {
                CopyStep::Fail(e)
            } else if end_of_stream {
                CopyStep::Shutdown
            } else {
                CopyStep::Write(data)
            },
            Ok((replacement, close)) => if end_of_stream || close {
                CopyStep::Shutdown
            } else {
                match replacement {
                    Some(bytes) => CopyStep::Write(bytes),
                    None => CopyStep::Write(data),
                }
            },
        }
    }

    /// The direction after the outcome of processing: it asks the processor no more once a failure
    /// was passed over.
    pub open spec fn next_after(self, outcome: Result<(Option<Vec<u8>>, bool), Error>) -> Copier {
        if self.passes_over(outcome) {
            Copier { mode: DataSendMode::Skip, ..self }
        } else {
            self
        }
    }

    /// Takes in the outcome of processing `data`. Where the processor could not be reached, and
    /// that is allowed, this and all later data is passed on unprocessed.
    pub fn on_processed(
        &mut self,
        data: Vec<u8>,
        end_of_stream: bool,
        outcome: Result<(Option<Vec<u8>>, bool), Error>,
    ) -> (r: CopyStep)
        ensures
            r == old(self).after(data, end_of_stream, outcome),
            final(self).read == old(self).read,
            final(self).failure_mode_allow == old(self).failure_mode_allow,
            final(self).mode == if old(self).passes_over(outcome) {
                DataSendMode::Skip
            } else {
                old(self).mode
            },
            *final(self) == old(self).next_after(outcome),
    {
        match outcome {
            Ok((replacement, close)) => {
                if end_of_stream || close {
                    return CopyStep::Shutdown;
                }
                match replacement {
                    Some(bytes) => CopyStep::Write(bytes),
                    None => CopyStep::Write(data),
                }
            },
            Err(e) => {
                let reached = match &e {
                    Error::Grpc(_) => false,
                    Error::StreamClosed => false,
                    _ => true,
                };
                if reached || !self.failure_mode_allow {
                    return CopyStep::Fail(e);
                }
                self.mode = DataSendMode::Skip;
                if end_of_stream {
                    CopyStep::Shutdown
                } else {
                    CopyStep::Write(data)
                }
            },
        }
    }
}

/// The result of a connection, given those of its directions.
pub open spec fn connection_result(
    from_client: Result<(), Error>,
    to_client: Result<(), Error>,
) -> Result<(), Error> {
    if from_client is Err {
        from_client
    } else {
        to_client
    }
}

/// The result of a connection: the error of the direction from the client comes first.
pub fn proxy_result(from_client: Result<(), Error>, to_client: Result<(), Error>) -> (r: Result<
    (),
    Error,
>)
    ensures
        r == match from_client {
            Err(e) => Err::<(), Error>(e),
            Ok(_) => to_client,
        },
        r == connection_result(from_client, to_client),
{
    match from_client {
        Err(e) => Err(e),
        Ok(_) => to_client,
    }
}

/// All that a direction writes for pieces of data, given the outcome of processing each. Where
/// data is not processed, its outcome does not matter.
pub open spec fn relayed(
    copier: Copier,
    pieces: Seq<(Vec<u8>, Result<(Option<Vec<u8>>, bool), Error>)>,
) -> Seq<u8>
    decreases pieces.len(),
{
    if pieces.len() == 0 {
        Seq::empty()
    } else {
        let (data, outcome) = pieces.first();
        let rest = pieces.skip(1);
        match copier.mode {
            DataSendMode::Skip => data@ + relayed(copier, rest),
            DataSendMode::Streamed => match copier.after(data, false, outcome) {
                CopyStep::Write(bytes) => {
                    bytes@ + relayed(copier.next_after(outcome), rest)
                },
                _ => Seq::empty(),
            },
        }
    }
}

/// All bytes of pieces of data, one piece after the other.
pub open spec fn all_bytes(
    pieces: Seq<(Vec<u8>, Result<(Option<Vec<u8>>, bool), Error>)>,
) -> Seq<u8>
    decreases pieces.len(),
{
    if pieces.len() == 0 {
        Seq::empty()
    } else {
        pieces.first().0@ + all_bytes(pieces.skip(1))
    }
}

/// A processor that changes nothing, is not asked, or fails where that is allowed, is as good as
/// none: a direction writes exactly what it reads.
pub proof fn law_unmodified_data_passes_through(
    copier: Copier,
    pieces: Seq<(Vec<u8>, Result<(Option<Vec<u8>>, bool), Error>)>,
)
    requires
        forall|i: int|
            0 <= i < pieces.len() ==> copier.mode == DataSendMode::Skip || (#[trigger] pieces[i]).1
                == Ok::<(Option<Vec<u8>>, bool), Error>((None, false)) || copier.passes_over(
                pieces[i].1,
            ),
    ensures
        relayed(copier, pieces) == all_bytes(pieces),
    decreases pieces.len(),
{
    if pieces.len() > 0 {
        let rest = pieces.skip(1);
        assert forall|i: int| 0 <= i < rest.len() implies copier.mode == DataSendMode::Skip || (
        #[trigger] rest[i]).1 == Ok::<(Option<Vec<u8>>, bool), Error>((None, false))
            || copier.passes_over(rest[i].1) by {
            assert(rest[i] == pieces[i + 1]);
        }
        law_unmodified_data_passes_through(copier, rest);
        law_unmodified_data_passes_through(
            Copier { mode: DataSendMode::Skip, ..copier },
            rest,
        );
        assert(pieces[0] == pieces.first());
    }
}

/// What a direction writes for a piece of data: what replaces it, or the piece itself.
pub open spec fn written(data: Seq<u8>, replacement: Option<Vec<u8>>) -> Seq<u8> {
    match replacement {
        Some(bytes) => bytes@,
        None => data,
    }
}

/// A direction that processes its data writes, for each piece, what the processor put in its
/// place, or the piece where the processor changed nothing.
pub proof fn law_data_is_forwarded_or_replaced(
    copier: Copier,
    data: Vec<u8>,
    replacement: Option<Vec<u8>>,
)
    requires
        data@.len() > 0,
    ensures
        copier.after(data, false, Ok((replacement, false))) matches CopyStep::Write(bytes)
            && bytes@ == written(data@, replacement),
{
}

/// An answer about data of one direction never puts data of the other in its place.
pub proof fn law_directions_do_not_mix(read: bool, response: ProcessingResponse)
    ensures
        processed_data(read, response) matches Ok((Some(bytes), _)) ==> if read {
            response.read_data matches Some(d) && d.data == bytes
        } else {
            response.write_data matches Some(d) && d.data == bytes
        },
{
}

/// Where failures are allowed, a processor that cannot be reached never ends a connection early
/// and never changes its data.
pub proof fn law_failures_are_passed_over(copier: Copier, data: Vec<u8>, error: Error)
    requires
        copier.failure_mode_allow,
        error.unreachable(),
    ensures
        copier.after(data, false, Err(error)) == CopyStep::Write(data),
        copier.after(data, true, Err(error)) == CopyStep::Shutdown,
{
}

/// An answer that is said to have changed the data, and holds data of the processed direction,
/// yields exactly that data, whichever direction that is; one that holds none of it is an error.
pub proof fn law_modified_data_is_taken(read: bool, response: ProcessingResponse)
    requires
        response.data_processing_status == DataProcessedStatus::Modified,
    ensures
        read && response.read_data is Some ==> (processed_data(read, response) matches Ok(
            (Some(bytes), _),
        ) && bytes == response.read_data->0.data),
        !read && response.write_data is Some ==> (processed_data(read, response) matches Ok(
            (Some(bytes), _),
        ) && bytes == response.write_data->0.data),
        read && response.read_data is None ==> processed_data(read, response) == Err::<
            (Option<Vec<u8>>, bool),
            Error,
        >(Error::WrongDirection),
        !read && response.write_data is None ==> processed_data(read, response) == Err::<
            (Option<Vec<u8>>, bool),
            Error,
        >(Error::WrongDirection),
{
}

/// An answer that is not said to have changed the data replaces nothing, whatever data it holds.
pub proof fn law_unmodified_data_is_kept(read: bool, response: ProcessingResponse)
    requires
        response.data_processing_status != DataProcessedStatus::Modified,
    ensures
        processed_data(read, response) matches Ok((None, _)),
{
}

/// The connection goes on exactly where the answer says so: a status that has no name ends it, as
/// one that closes it does, in either direction and whatever became of the data.
pub proof fn law_connection_goes_on_where_said(read: bool, response: ProcessingResponse)
    ensures
        processed_data(read, response) matches Ok((_, close)) ==> (close <==>
            response.connection_status == ConnectionStatus::Close || response.connection_status
            == ConnectionStatus::CloseRst || response.connection_status
            == ConnectionStatus::Unrecognized),
{
}

/// An answer that gives back the very message it answers leaves the data as it was and the
/// connection open, in either direction.
pub proof fn law_echoed_data_passes(
    copier: Copier,
    data: Vec<u8>,
    response: ProcessingResponse,
    modified: bool,
)
    requires
        response.read_data == Some(Data { data, end_of_stream: false }),
        response.write_data == Some(Data { data, end_of_stream: false }),
        response.data_processing_status == if modified {
            DataProcessedStatus::Modified
        } else {
            DataProcessedStatus::Unmodified
        },
        response.connection_status == ConnectionStatus::Continue,
    ensures
        copier.after(data, false, processed_data(copier.read, response)) == CopyStep::Write(data),
{
}

/// A direction ends where its data ends or where the processor closes the connection, and only an
/// error that is not passed over makes it fail, with that very error.
pub proof fn law_directions_end(
    copier: Copier,
    data: Vec<u8>,
    end_of_stream: bool,
    outcome: Result<(Option<Vec<u8>>, bool), Error>,
)
    ensures
        outcome matches Ok((_, close)) ==> (copier.after(data, end_of_stream, outcome)
            == CopyStep::Shutdown <==> end_of_stream || close),
        outcome matches Ok(_) ==> !(copier.after(data, end_of_stream, outcome) is Fail),
        outcome matches Err(e) ==> !copier.failure_mode_allow || e is WrongDirection || e is Io
            ==> copier.after(data, end_of_stream, outcome) == CopyStep::Fail(e),
        !(copier.after(data, end_of_stream, outcome) is Process),
{
}

/// What a direction does with what it reads: what it is to process goes to the processor, with
/// word whether it is the end; otherwise it is written as it is, and the end shuts the writing
/// side down.
pub proof fn law_read_data_goes_on(copier: Copier, data: Vec<u8>)
    ensures
        copier.mode == DataSendMode::Skip && data@.len() > 0 ==> copier.reads(data)
            == CopyStep::Write(data),
        copier.mode == DataSendMode::Skip && data@.len() == 0 ==> copier.reads(data)
            == CopyStep::Shutdown,
        copier.mode == DataSendMode::Streamed ==> (copier.reads(data) matches CopyStep::Process {
            data: given,
            end_of_stream,
        } && given == data && (end_of_stream <==> data@.len() == 0)),
{
}

/// A message holds the data of one direction, as they are, and none of the other.
pub proof fn law_messages_hold_one_direction(data: Vec<u8>, end_of_stream: bool)
    ensures
        request_for(true, data, end_of_stream).read_data == Some(Data { data, end_of_stream }),
        request_for(true, data, end_of_stream).write_data is None,
        request_for(false, data, end_of_stream).write_data == Some(Data { data, end_of_stream }),
        request_for(false, data, end_of_stream).read_data is None,
{
}

/// A connection succeeds exactly if both directions do; where both fail, the one from the client
/// is reported.
pub proof fn law_both_directions_must_succeed(
    from_client: Result<(), Error>,
    to_client: Result<(), Error>,
)
    ensures
        connection_result(from_client, to_client) is Ok <==> from_client is Ok && to_client is Ok,
        from_client matches Err(e) ==> connection_result(from_client, to_client) == Err::<
            (),
            Error,
        >(e),
        from_client is Ok ==> connection_result(from_client, to_client) == to_client,
{
}

/// An answer is waited for as long as is configured, and for the default where that is zero.
pub proof fn law_timeouts_are_as_configured(config: NetworkExtProc)
    ensures
        config.message_timeout_ms > 0 ==> config.waits_for() == config.message_timeout_ms,
        config.message_timeout_ms == 0 ==> config.waits_for() == 200,
{
}

/// A direction that passes over a failure does not ask the processor again; any other outcome
/// leaves it as it is.
pub proof fn law_given_up_processors_are_not_asked(
    copier: Copier,
    outcome: Result<(Option<Vec<u8>>, bool), Error>,
    data: Vec<u8>,
)
    ensures
        copier.failure_mode_allow && (outcome matches Err(e) && (e is Grpc || e is StreamClosed))
            ==> !(copier.next_after(outcome).reads(data) is Process),
        !copier.failure_mode_allow || outcome is Ok || outcome->Err_0 is WrongDirection
            || outcome->Err_0 is Io ==> copier.next_after(outcome) == copier,
        copier.next_after(outcome).read == copier.read,
        copier.next_after(outcome).failure_mode_allow == copier.failure_mode_allow,
{
}

/// What an error tells holds what went wrong; the errors that have no cause of their own differ.
pub proof fn law_errors_tell_what_went_wrong(text: String)
    ensures
        crate::text::ends_with(error_text(Error::Grpc(text)), text@),
        error_text(Error::Io(text)) == text@,
        error_text(Error::StreamClosed) != error_text(Error::WrongDirection),
{
    let all = "network ext_proc stream failed: "@ + text@;
    assert(all.skip(all.len() - text@.len()) =~= text@);
    reveal_strlit("network ext_proc stream closed before responding");
    reveal_strlit("network ext_proc response did not match the processed direction");
    assert("network ext_proc stream closed before responding"@.len() == 48);
    assert("network ext_proc response did not match the processed direction"@.len() == 63);
}

} // verus!
