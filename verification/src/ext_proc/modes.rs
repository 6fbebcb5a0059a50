//! The processing modes of an exchange and the overrides that the service may ask for.

use vstd::prelude::*;

verus! {

/// What happens when the external service is unavailable or fails.
#[derive(Debug, Clone, Copy, PartialEq, Eq, Structural)]
pub enum FailureMode {
    FailClosed,
    FailOpen,
}

impl Default for FailureMode {
    fn default() -> (r: Self)
        ensures
            r == FailureMode::FailClosed,
    {
        FailureMode::FailClosed
    }
}

/// How a body is sent to the external service.
#[derive(Debug, Clone, Copy, PartialEq, Eq, Structural)]
pub enum BodySendMode {
    NotSent,
    Buffered,
    BufferedPartial,
    FullDuplexStreamed,
}

impl Default for BodySendMode {
    fn default() -> (r: Self)
        ensures
            r == BodySendMode::NotSent,
    {
        BodySendMode::NotSent
    }
}

/// Whether headers are sent to the external service.
#[derive(Debug, Clone, Copy, PartialEq, Eq, Structural)]
pub enum HeaderSendMode {
    Send,
    Skip,
}

impl Default for HeaderSendMode {
    fn default() -> (r: Self)
        ensures
            r == HeaderSendMode::Send,
    {
        HeaderSendMode::Send
    }
}

/// Whether trailers are sent to the external service.
#[derive(Debug, Clone, Copy, PartialEq, Eq, Structural)]
pub enum TrailerSendMode {
    Send,
    Skip,
}

impl Default for TrailerSendMode {
    fn default() -> (r: Self)
        ensures
            r == TrailerSendMode::Skip,
    {
        TrailerSendMode::Skip
    }
}

/// The configured processing modes.
#[derive(Debug, Clone, Copy, PartialEq, Eq, Structural)]
pub struct ProcessingOptions {
    pub request_body_mode: BodySendMode,
    pub response_body_mode: BodySendMode,
    pub request_header_mode: HeaderSendMode,
    pub response_header_mode: HeaderSendMode,
    pub request_trailer_mode: TrailerSendMode,
    pub response_trailer_mode: TrailerSendMode,
    pub allow_mode_override: bool,
    pub send_body_without_waiting_for_header_response: bool,
}

/// The modes that apply where nothing is configured: headers are sent, bodies are streamed in
/// both directions, trailers are not sent, and the service may not override the modes.
pub open spec fn default_options() -> ProcessingOptions {
    ProcessingOptions {
        request_body_mode: BodySendMode::FullDuplexStreamed,
        response_body_mode: BodySendMode::FullDuplexStreamed,
        request_header_mode: HeaderSendMode::Send,
        response_header_mode: HeaderSendMode::Send,
        request_trailer_mode: TrailerSendMode::Skip,
        response_trailer_mode: TrailerSendMode::Skip,
        allow_mode_override: false,
        send_body_without_waiting_for_header_response: false,
    }
}

impl Default for ProcessingOptions {
    fn default() -> (r: Self)
        ensures
            r == default_options(),
    {
        ProcessingOptions {
            request_body_mode: BodySendMode::FullDuplexStreamed,
            response_body_mode: BodySendMode::FullDuplexStreamed,
            request_header_mode: HeaderSendMode::Send,
            response_header_mode: HeaderSendMode::Send,
            request_trailer_mode: TrailerSendMode::Skip,
            response_trailer_mode: TrailerSendMode::Skip,
            allow_mode_override: false,
            send_body_without_waiting_for_header_response: false,
        }
    }
}

/// A header or trailer mode on the wire.
#[derive(Debug, Clone, Copy, PartialEq, Eq, Structural)]
pub enum WireHeaderMode {
    Default,
    Send,
    Skip,
}

/// A body mode on the wire.
#[derive(Debug, Clone, Copy, PartialEq, Eq, Structural)]
pub enum EnvoyBodySendMode {
    NotSent,
    Streamed,
    Buffered,
    BufferedPartial,
    FullDuplexStreamed,
}

/// The wire form of a body mode.
pub open spec fn wire_body_mode(mode: BodySendMode) -> EnvoyBodySendMode {
    match mode {
        BodySendMode::NotSent => EnvoyBodySendMode::NotSent,
        BodySendMode::Buffered => EnvoyBodySendMode::Buffered,
        BodySendMode::BufferedPartial => EnvoyBodySendMode::BufferedPartial,
        BodySendMode::FullDuplexStreamed => EnvoyBodySendMode::FullDuplexStreamed,
    }
}

impl BodySendMode {
    /// The wire form of this mode.
    pub fn to_wire(self) -> (r: EnvoyBodySendMode)
        ensures
            r == wire_body_mode(self),
    {
        match self {
            BodySendMode::NotSent => EnvoyBodySendMode::NotSent,
            BodySendMode::Buffered => EnvoyBodySendMode::Buffered,
            BodySendMode::BufferedPartial => EnvoyBodySendMode::BufferedPartial,
            BodySendMode::FullDuplexStreamed => EnvoyBodySendMode::FullDuplexStreamed,
        }
    }
}

/// The mode override of a message from the service. `None` stands for a value that the protocol
/// does not define; such a value changes nothing.
#[derive(Debug, Clone, Copy, PartialEq, Eq, Structural)]
pub struct ProcessingMode {
    pub request_header_mode: Option<WireHeaderMode>,
    pub response_header_mode: Option<WireHeaderMode>,
    pub request_body_mode: Option<EnvoyBodySendMode>,
    pub response_body_mode: Option<EnvoyBodySendMode>,
    pub request_trailer_mode: Option<WireHeaderMode>,
    pub response_trailer_mode: Option<WireHeaderMode>,
}

/// The headers phase in which a message arrives.
#[derive(Debug, Clone, Copy, PartialEq, Eq, Structural)]
pub enum HeaderPhase {
    Request,
    Response,
}

/// The processing modes in force during one exchange.
#[derive(Debug, Clone, Copy, PartialEq, Eq, Structural)]
pub struct ModeStateMachine {
    pub request_body_mode: BodySendMode,
    pub response_body_mode: BodySendMode,
    pub request_header_mode: HeaderSendMode,
    pub response_header_mode: HeaderSendMode,
    pub request_trailer_mode: TrailerSendMode,
    pub response_trailer_mode: TrailerSendMode,
    pub allow_mode_override: bool,
    pub send_body_without_waiting_for_header_response: bool,
    pub request_headers_processed: bool,
    pub response_headers_processed: bool,
}

/// The body mode after an override asked for `asked` while `current` was in force. A body that
/// is streamed in full duplex keeps its mode, and so does one for which plain streaming, which
/// is not offered, is asked.
pub open spec fn overridden_body_mode(
    current: BodySendMode,
    asked: Option<EnvoyBodySendMode>,
) -> BodySendMode {
    if current == BodySendMode::FullDuplexStreamed {
        current
    } else {
        match asked {
            None => current,
            Some(EnvoyBodySendMode::Streamed) => current,
            Some(EnvoyBodySendMode::NotSent) => BodySendMode::NotSent,
            Some(EnvoyBodySendMode::Buffered) => BodySendMode::Buffered,
            Some(EnvoyBodySendMode::BufferedPartial) => BodySendMode::BufferedPartial,
            Some(EnvoyBodySendMode::FullDuplexStreamed) => BodySendMode::FullDuplexStreamed,
        }
    }
}

/// The header mode after an override asked for `asked`, which counts only until the headers in
/// question have been processed.
pub open spec fn overridden_header_mode(
    current: HeaderSendMode,
    asked: Option<WireHeaderMode>,
    processed: bool,
) -> HeaderSendMode {
    match asked {
        Some(WireHeaderMode::Send) if !processed => HeaderSendMode::Send,
        Some(WireHeaderMode::Skip) if !processed => HeaderSendMode::Skip,
        _ => current,
    }
}

/// The trailer mode after an override asked for `asked`.
pub open spec fn overridden_trailer_mode(
    current: TrailerSendMode,
    asked: Option<WireHeaderMode>,
) -> TrailerSendMode {
    match asked {
        Some(WireHeaderMode::Send) => TrailerSendMode::Send,
        Some(WireHeaderMode::Skip) => TrailerSendMode::Skip,
        _ => current,
    }
}

impl ModeStateMachine {
    /// The modes at the start of an exchange.
    pub open spec fn of_options(opts: ProcessingOptions) -> ModeStateMachine {
        ModeStateMachine {
            request_body_mode: opts.request_body_mode,
            response_body_mode: opts.response_body_mode,
            request_header_mode: opts.request_header_mode,
            response_header_mode: opts.response_header_mode,
            request_trailer_mode: opts.request_trailer_mode,
            response_trailer_mode: opts.response_trailer_mode,
            allow_mode_override: opts.allow_mode_override,
            send_body_without_waiting_for_header_response:
                opts.send_body_without_waiting_for_header_response,
            request_headers_processed: false,
            response_headers_processed: false,
        }
    }

    /// The modes once the headers of `phase` have been processed.
    pub open spec fn processed(self, phase: HeaderPhase) -> ModeStateMachine {
        match phase {
            HeaderPhase::Request => ModeStateMachine { request_headers_processed: true, ..self },
            HeaderPhase::Response => ModeStateMachine { response_headers_processed: true, ..self },
        }
    }

    /// The modes after `mode` has been applied.
    pub open spec fn overridden(self, mode: ProcessingMode) -> ModeStateMachine {
        ModeStateMachine {
            request_body_mode: overridden_body_mode(
                self.request_body_mode,
                mode.request_body_mode,
            ),
            response_body_mode: overridden_body_mode(
                self.response_body_mode,
                mode.response_body_mode,
            ),
            response_header_mode: overridden_header_mode(
                self.response_header_mode,
                mode.response_header_mode,
                self.response_headers_processed,
            ),
            request_trailer_mode: overridden_trailer_mode(
                self.request_trailer_mode,
                mode.request_trailer_mode,
            ),
            response_trailer_mode: overridden_trailer_mode(
                self.response_trailer_mode,
                mode.response_trailer_mode,
            ),
            ..self
        }
    }

    /// Whether a body in the mode `current_mode` may be switched to another one.
    pub fn current_mode_allows_body_override(current_mode: BodySendMode) -> (r: bool)
        ensures
            r == (current_mode != BodySendMode::FullDuplexStreamed),
    {
        match current_mode {
            BodySendMode::FullDuplexStreamed => false,
            _ => true,
        }
    }

    /// Whether the service may override the modes.
    pub fn allow_mode_override(&self) -> (r: bool)
        ensures
            r == self.allow_mode_override,
    {
        self.allow_mode_override
    }

    /// Whether bodies are sent before the service has answered to the headers.
    pub fn send_body_without_waiting_for_header_response(&self) -> (r: bool)
        ensures
            r == self.send_body_without_waiting_for_header_response,
    {
        self.send_body_without_waiting_for_header_response
    }

    /// Notes that the headers of `phase` have been processed.
    pub fn mark_headers_processed(&mut self, phase: HeaderPhase)
        ensures
            *final(self) == old(self).processed(phase),
    {
        match phase {
            HeaderPhase::Request => {
                self.request_headers_processed = true;
            },
            HeaderPhase::Response => {
                self.response_headers_processed = true;
            },
        }
    }

    fn override_body_mode(current: BodySendMode, asked: Option<EnvoyBodySendMode>) -> (r:
        BodySendMode)
        ensures
            r == overridden_body_mode(current, asked),
    {
        match asked {
            None => current,
            Some(EnvoyBodySendMode::Streamed) => current,
            Some(mode) => {
                if !Self::current_mode_allows_body_override(current) {
                    return current;
                }
                match mode {
                    EnvoyBodySendMode::NotSent => BodySendMode::NotSent,
                    EnvoyBodySendMode::Buffered => BodySendMode::Buffered,
                    EnvoyBodySendMode::BufferedPartial => BodySendMode::BufferedPartial,
                    EnvoyBodySendMode::FullDuplexStreamed => BodySendMode::FullDuplexStreamed,
                    EnvoyBodySendMode::Streamed => current,
                }
            },
        }
    }

    fn override_trailer_mode(current: TrailerSendMode, asked: Option<WireHeaderMode>) -> (r:
        TrailerSendMode)
        ensures
            r == overridden_trailer_mode(current, asked),
    {
        match asked {
            Some(WireHeaderMode::Send) => TrailerSendMode::Send,
            Some(WireHeaderMode::Skip) => TrailerSendMode::Skip,
            _ => current,
        }
    }

    /// Applies a mode override. The request header mode of an override is ignored: by the time an
    /// override can arrive the request headers have been dealt with.
    pub fn apply_envoy_mode_override(&mut self, mode: &ProcessingMode)
        ensures
            *final(self) == old(self).overridden(*mode),
    {
        match mode.response_header_mode {
            Some(WireHeaderMode::Send) => {
                if !self.response_headers_processed {
                    self.response_header_mode = HeaderSendMode::Send;
                }
            },
            Some(WireHeaderMode::Skip) => {
                if !self.response_headers_processed {
                    self.response_header_mode = HeaderSendMode::Skip;
                }
            },
            _ => {},
        }
        self.request_body_mode = Self::override_body_mode(
            self.request_body_mode,
            mode.request_body_mode,
        );
        self.response_body_mode = Self::override_body_mode(
            self.response_body_mode,
            mode.response_body_mode,
        );
        self.request_trailer_mode = Self::override_trailer_mode(
            self.request_trailer_mode,
            mode.request_trailer_mode,
        );
        self.response_trailer_mode = Self::override_trailer_mode(
            self.response_trailer_mode,
            mode.response_trailer_mode,
        );
    }
}

impl From<ProcessingOptions> for ModeStateMachine {
    fn from(opts: ProcessingOptions) -> (r: Self) {
        ModeStateMachine {
            request_body_mode: opts.request_body_mode,
            response_body_mode: opts.response_body_mode,
            request_header_mode: opts.request_header_mode,
            response_header_mode: opts.response_header_mode,
            request_trailer_mode: opts.request_trailer_mode,
            response_trailer_mode: opts.response_trailer_mode,
            allow_mode_override: opts.allow_mode_override,
            send_body_without_waiting_for_header_response: opts.send_body_without_waiting_for_header_response,
            request_headers_processed: false,
            response_headers_processed: false,
        }
    }
}

impl vstd::std_specs::convert::FromSpecImpl<ProcessingOptions> for ModeStateMachine {
    open spec fn obeys_from_spec() -> bool {
        true
    }

    open spec fn from_spec(opts: ProcessingOptions) -> Self {
        ModeStateMachine::of_options(opts)
    }
}

/// A body that is streamed in full duplex keeps that mode whatever overrides arrive.
pub proof fn law_full_duplex_is_kept(state: ModeStateMachine, mode: ProcessingMode)
    ensures
        state.request_body_mode == BodySendMode::FullDuplexStreamed ==> state.overridden(
            mode,
        ).request_body_mode == BodySendMode::FullDuplexStreamed,
        state.response_body_mode == BodySendMode::FullDuplexStreamed ==> state.overridden(
            mode,
        ).response_body_mode == BodySendMode::FullDuplexStreamed,
{
}

/// An override never changes how request headers are sent, whether overrides are allowed, what
/// has been processed, or, once the response headers have been processed, how response headers
/// are sent.
pub proof fn law_override_keeps_what_is_settled(state: ModeStateMachine, mode: ProcessingMode)
    ensures
        state.overridden(mode).request_header_mode == state.request_header_mode,
        state.overridden(mode).allow_mode_override == state.allow_mode_override,
        state.overridden(mode).send_body_without_waiting_for_header_response
            == state.send_body_without_waiting_for_header_response,
        state.overridden(mode).request_headers_processed == state.request_headers_processed,
        state.overridden(mode).response_headers_processed == state.response_headers_processed,
        state.response_headers_processed ==> state.overridden(mode).response_header_mode
            == state.response_header_mode,
{
}

/// Applying the same override twice is applying it once.
pub proof fn law_override_is_idempotent(state: ModeStateMachine, mode: ProcessingMode)
    ensures
        state.overridden(mode).overridden(mode) == state.overridden(mode),
{
}

/// An override does what it asks for: a body that is not streamed in full duplex gets the mode
/// that the override names for its side, unless that is plain streaming or no mode at all, and
/// then it keeps its own.
pub proof fn law_overrides_set_body_modes(
    state: ModeStateMachine,
    mode: ProcessingMode,
    asked: BodySendMode,
)
    ensures
        state.request_body_mode != BodySendMode::FullDuplexStreamed && mode.request_body_mode
            == Some(wire_body_mode(asked)) ==> state.overridden(mode).request_body_mode == asked,
        state.response_body_mode != BodySendMode::FullDuplexStreamed && mode.response_body_mode
            == Some(wire_body_mode(asked)) ==> state.overridden(mode).response_body_mode == asked,
        mode.request_body_mode is None || mode.request_body_mode == Some(
            EnvoyBodySendMode::Streamed,
        ) ==> state.overridden(mode).request_body_mode == state.request_body_mode,
        mode.response_body_mode is None || mode.response_body_mode == Some(
            EnvoyBodySendMode::Streamed,
        ) ==> state.overridden(mode).response_body_mode == state.response_body_mode,
{
}

/// Trailers are sent or skipped as an override says for their side, and as before where it says
/// nothing; the same holds of response headers that have not been processed.
pub proof fn law_overrides_set_the_other_modes(state: ModeStateMachine, mode: ProcessingMode)
    ensures
        ({
            let after = state.overridden(mode);
            &&& mode.request_trailer_mode == Some(WireHeaderMode::Send)
                ==> after.request_trailer_mode == TrailerSendMode::Send
            &&& mode.request_trailer_mode == Some(WireHeaderMode::Skip)
                ==> after.request_trailer_mode == TrailerSendMode::Skip
            &&& mode.request_trailer_mode is None || mode.request_trailer_mode == Some(
                WireHeaderMode::Default,
            ) ==> after.request_trailer_mode == state.request_trailer_mode
            &&& mode.response_trailer_mode == Some(WireHeaderMode::Send)
                ==> after.response_trailer_mode == TrailerSendMode::Send
            &&& mode.response_trailer_mode == Some(WireHeaderMode::Skip)
                ==> after.response_trailer_mode == TrailerSendMode::Skip
            &&& mode.response_trailer_mode is None || mode.response_trailer_mode == Some(
                WireHeaderMode::Default,
            ) ==> after.response_trailer_mode == state.response_trailer_mode
            &&& !state.response_headers_processed && mode.response_header_mode == Some(
                WireHeaderMode::Send,
            ) ==> after.response_header_mode == HeaderSendMode::Send
            &&& !state.response_headers_processed && mode.response_header_mode == Some(
                WireHeaderMode::Skip,
            ) ==> after.response_header_mode == HeaderSendMode::Skip
            &&& mode.response_header_mode is None || mode.response_header_mode == Some(
                WireHeaderMode::Default,
            ) ==> after.response_header_mode == state.response_header_mode
        }),
{
}

/// Each mode is announced under its own name; plain streaming is never announced.
pub proof fn law_modes_are_announced_by_name(mode: BodySendMode)
    ensures
        mode == BodySendMode::NotSent <==> wire_body_mode(mode) == EnvoyBodySendMode::NotSent,
        mode == BodySendMode::Buffered <==> wire_body_mode(mode) == EnvoyBodySendMode::Buffered,
        mode == BodySendMode::BufferedPartial <==> wire_body_mode(mode)
            == EnvoyBodySendMode::BufferedPartial,
        mode == BodySendMode::FullDuplexStreamed <==> wire_body_mode(mode)
            == EnvoyBodySendMode::FullDuplexStreamed,
        wire_body_mode(mode) != EnvoyBodySendMode::Streamed,
{
}

/// An exchange starts with the modes that are configured, and with no headers processed.
pub proof fn law_modes_start_as_configured(opts: ProcessingOptions)
    ensures
        ({
            let start = ModeStateMachine::of_options(opts);
            &&& start.request_body_mode == opts.request_body_mode
            &&& start.response_body_mode == opts.response_body_mode
            &&& start.request_header_mode == opts.request_header_mode
            &&& start.response_header_mode == opts.response_header_mode
            &&& start.request_trailer_mode == opts.request_trailer_mode
            &&& start.response_trailer_mode == opts.response_trailer_mode
            &&& start.allow_mode_override == opts.allow_mode_override
            &&& start.send_body_without_waiting_for_header_response
                == opts.send_body_without_waiting_for_header_response
            &&& !start.request_headers_processed && !start.response_headers_processed
        }),
{
}

/// Processing the headers of one side settles these and nothing else: no mode changes, and the
/// other side is left alone.
pub proof fn law_processing_settles_one_side(state: ModeStateMachine)
    ensures
        ({
            let after = state.processed(HeaderPhase::Request);
            &&& after.request_headers_processed
            &&& after.response_headers_processed == state.response_headers_processed
            &&& ModeStateMachine {
                request_headers_processed: state.request_headers_processed,
                ..after
            } == state
        }),
        ({
            let after = state.processed(HeaderPhase::Response);
            &&& after.response_headers_processed
            &&& after.request_headers_processed == state.request_headers_processed
            &&& ModeStateMachine {
                response_headers_processed: state.response_headers_processed,
                ..after
            } == state
        }),
{
}

} // verus!
