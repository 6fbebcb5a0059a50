//! A sample external processor of TCP streams.

use vstd::prelude::*;

#[allow(unused_imports)]
use crate::network_ext_proc::{
    processed_data, ConnectionStatus, DataProcessedStatus, Error, ProcessingRequest,
    ProcessingResponse,
};

verus! {

/// Answers the messages of one stream. By default nothing is changed.
pub trait Handler: Sized {
    /// Answers a message, or ends the stream with an error.
    fn process(&mut self, request: ProcessingRequest) -> (r: Result<ProcessingResponse, String>)
        default_ensures
            r == Ok::<ProcessingResponse, String>(unchanged(request)),
            *final(self) == *old(self),
    {
        Ok(
            ProcessingResponse {
                read_data: request.read_data,
                write_data: request.write_data,
                data_processing_status: DataProcessedStatus::Unmodified,
                connection_status: ConnectionStatus::Continue,
            },
        )
    }
}

/// The answer that changes nothing.
pub open spec fn unchanged(request: ProcessingRequest) -> ProcessingResponse {
    ProcessingResponse {
        read_data: request.read_data,
        write_data: request.write_data,
        data_processing_status: DataProcessedStatus::Unmodified,
        connection_status: ConnectionStatus::Continue,
    }
}

/// A processor that makes a handler for each stream.
#[derive(Debug)]
pub struct NetworkExtProcMock<F> {
    pub handler: F,
}

impl<T: Handler, F: Fn() -> T> NetworkExtProcMock<F> {
    /// A processor that makes its handlers with `handler`.
    pub fn new(handler: F) -> (r: Self)
        ensures
            r.handler == handler,
    {
        NetworkExtProcMock { handler }
    }

    /// The handler of a new stream.
    pub fn start(&self) -> (r: T)
        requires
            call_requires(self.handler, ()),
        ensures
            call_ensures(self.handler, (), r),
    {
        (self.handler)()
    }
}

/// A processor that answers by default is as good as none: in either direction it replaces nothing
/// and keeps the connection open, and it gives the data back as they came.
pub proof fn law_default_answers_change_nothing(request: ProcessingRequest, read: bool)
    ensures
        processed_data(read, unchanged(request)) == Ok::<(Option<Vec<u8>>, bool), Error>(
            (None, false),
        ),
        unchanged(request).read_data == request.read_data,
        unchanged(request).write_data == request.write_data,
{
}

} // verus!
