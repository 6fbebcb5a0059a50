//! Endpoint selection by an external service, and the configuration of external processing.

use vstd::prelude::*;
use vstd::string::*;

use crate::ext_proc::instance::ExtProcInstance;
use crate::ext_proc::messages::PolicyResponse;
#[allow(unused_imports)]
use crate::ext_proc::modes::{default_options, FailureMode, ProcessingOptions};
#[allow(unused_imports)]
use crate::json::{Json, JsonView};
#[allow(unused_imports)]
use crate::metadata_context::{eval_to_struct, evaluated_fields};
use crate::text::push_char;

verus! {

/// The namespace of the attributes in messages to the service.
pub const EXTPROC_ATTRIBUTES_NAMESPACE: &'static str = "envoy.filters.http.ext_proc";

/// How a destination that the service picks is used.
#[derive(Debug, Clone, Copy, PartialEq, Eq, Structural)]
pub enum InferenceRoutingDestinationMode {
    /// It must be one of the endpoints of the local service.
    Validated,
    /// It is trusted.
    Passthrough,
}

impl Default for InferenceRoutingDestinationMode {
    fn default() -> (r: Self)
        ensures
            r == InferenceRoutingDestinationMode::Validated,
    {
        InferenceRoutingDestinationMode::Validated
    }
}

/// The configuration of endpoint selection.
#[derive(Debug, Clone, Copy, PartialEq, Eq, Structural)]
pub struct InferenceRouting {
    pub destination_mode: InferenceRoutingDestinationMode,
    pub failure_mode: FailureMode,
}

/// Endpoint selection during one exchange.
#[derive(Debug, Clone, Copy, PartialEq, Eq, Structural)]
pub struct InferencePoolRouter {
    pub ext_proc: Option<ExtProcInstance>,
    pub destination_mode: InferenceRoutingDestinationMode,
}

impl Default for InferencePoolRouter {
    fn default() -> (r: Self)
        ensures
            r == (InferencePoolRouter {
                ext_proc: None,
                destination_mode: InferenceRoutingDestinationMode::Validated,
            }),
    {
        InferencePoolRouter {
            ext_proc: None,
            destination_mode: InferenceRoutingDestinationMode::Validated,
        }
    }
}

/// What endpoint selection says about a request.
#[derive(Debug)]
pub struct InferenceRequestResult {
    /// The socket address that was picked.
    pub destination: Option<String>,
    pub destination_mode: InferenceRoutingDestinationMode,
    pub policy_response: PolicyResponse,
    pub failed_open: bool,
}

impl Default for InferenceRequestResult {
    fn default() -> (r: Self)
        ensures
            r == (InferenceRequestResult {
                destination: None,
                destination_mode: InferenceRoutingDestinationMode::Validated,
                policy_response: PolicyResponse { direct_response: None },
                failed_open: false,
            }),
    {
        InferenceRequestResult {
            destination: None,
            destination_mode: InferenceRoutingDestinationMode::Validated,
            policy_response: PolicyResponse::default(),
            failed_open: false,
        }
    }
}

impl InferenceRouting {
    /// Endpoint selection for one exchange: headers and bodies go through the service in both
    /// directions.
    pub fn build(&self) -> (r: InferencePoolRouter)
        ensures
            r == (InferencePoolRouter {
                ext_proc: Some(ExtProcInstance::fresh(self.failure_mode, default_options())),
                destination_mode: self.destination_mode,
            }),
    {
        InferencePoolRouter {
            ext_proc: Some(ExtProcInstance::new(self.failure_mode, ProcessingOptions::default())),
            destination_mode: self.destination_mode,
        }
    }
}

impl InferencePoolRouter {
    /// What endpoint selection says about a request once the service is done with it.
    /// `destination` is the address in the header `x-gateway-destination-endpoint`, if the request
    /// has that header and it is a text, or what is wrong with it.
    pub fn request_result(
        &self,
        destination: Option<Result<String, String>>,
        policy_response: Option<PolicyResponse>,
    ) -> (r: Result<InferenceRequestResult, String>)
        ensures
            match (self.ext_proc, destination) {
                (None, _) => r matches Ok(result) && result == (InferenceRequestResult {
                    destination: None,
                    destination_mode: InferenceRoutingDestinationMode::Validated,
                    policy_response: PolicyResponse { direct_response: None },
                    failed_open: false,
                }),
                (Some(_), Some(Err(e))) => r matches Err(text) && text@
                    == "EPP returned invalid address: "@ + e@,
                (Some(ext_proc), picked) => r matches Ok(result) && result == (
                InferenceRequestResult {
                    destination: match picked {
                        Some(Ok(address)) => Some(address),
                        _ => None,
                    },
                    destination_mode: self.destination_mode,
                    policy_response: match policy_response {
                        Some(p) => p,
                        None => PolicyResponse { direct_response: None },
                    },
                    failed_open: ext_proc.skipped,
                }),
            },
            r is Err <==> self.ext_proc is Some && (destination matches Some(Err(_))),
            r matches Ok(result) ==> result == selected(
                *self,
                match destination {
                    Some(Ok(address)) => Some(address),
                    _ => None,
                },
                policy_response,
            ),
    {
        let ext_proc = match &self.ext_proc {
            Some(ext_proc) => ext_proc,
            None => {
                return Ok(InferenceRequestResult::default());
            },
        };
        let picked = match destination {
            None => None,
            Some(Ok(address)) => Some(address),
            Some(Err(e)) => {
                return Err("EPP returned invalid address: ".to_owned().concat(e.as_str()));
            },
        };
        Ok(
            InferenceRequestResult {
                destination: picked,
                destination_mode: self.destination_mode,
                policy_response: match policy_response {
                    Some(p) => p,
                    None => PolicyResponse::default(),
                },
                failed_open: ext_proc.did_fail_open(),
            },
        )
    }
}

/// Whether a byte of a header can be read as text: visible ASCII, a space or a tab.
pub open spec fn is_header_text_byte(b: u8) -> bool {
    (32 <= b && b < 127) || b == 9
}

/// The text of a header value, where all of it can be read as text.
pub fn header_text(value: &[u8]) -> (r: Option<String>)
    ensures
        match r {
            Some(text) => (forall|i: int|
                0 <= i < value@.len() ==> is_header_text_byte(#[trigger] value@[i])) && text@
                == value@.map_values(|b: u8| b as char),
            None => exists|i: int|
                0 <= i < value@.len() && !is_header_text_byte(#[trigger] value@[i]),
        },
{
    let mut text = String::new();
    let mut i: usize = 0;
    while i < value.len()
        invariant
            i <= value@.len(),
            forall|j: int| 0 <= j < i ==> is_header_text_byte(#[trigger] value@[j]),
            text@ == value@.take(i as int).map_values(|b: u8| b as char),
        decreases value.len() - i,
    {
        let b: u8 = value[i];
        if !((32 <= b && b < 127) || b == 9) {
            return None;
        }
        push_char(&mut text, b as char);
        i += 1;
        assert(value@.take(i as int).map_values(|b: u8| b as char) =~= value@.take(
            i - 1,
        ).map_values(|b: u8| b as char).push(b as char));
    }
    assert(value@.take(i as int) =~= value@);
    Some(text)
}

/// Expressions by name.
pub type NamedExpressions = Vec<(String, String)>;

/// The configuration of external processing. Expressions are held by their texts.
#[derive(Debug)]
pub struct ExtProc {
    pub failure_mode: FailureMode,
    pub metadata_context: Option<Vec<(String, NamedExpressions)>>,
    pub request_attributes: Option<NamedExpressions>,
    pub response_attributes: Option<NamedExpressions>,
    pub processing_options: ProcessingOptions,
}

/// External processing of one exchange.
#[derive(Debug, Clone, Copy, PartialEq, Eq, Structural)]
pub struct ExtProcRequest {
    pub ext_proc: Option<ExtProcInstance>,
}

/// The expressions of a list.
pub open spec fn texts_of(named: Seq<(String, String)>) -> Seq<String> {
    named.map_values(|e: (String, String)| e.1)
}

/// The expressions of lists, one after the other.
pub open spec fn all_texts(groups: Seq<(String, NamedExpressions)>) -> Seq<String>
    decreases groups.len(),
{
    if groups.len() == 0 {
        Seq::empty()
    } else {
        all_texts(groups.drop_last()) + texts_of(groups.last().1@)
    }
}

/// The expressions of a list, if there is one.
pub open spec fn optional_texts(named: Option<NamedExpressions>) -> Seq<String> {
    match named {
        Some(n) => texts_of(n@),
        None => Seq::empty(),
    }
}

fn append_texts(out: &mut Vec<String>, named: &NamedExpressions)
    ensures
        final(out)@ == old(out)@ + texts_of(named@),
{
    let mut i: usize = 0;
    let ghost before = out@;
    assert(out@ =~= before + texts_of(named@).take(0));
    while i < named.len()
        invariant
            i <= named@.len(),
            out@ == before + texts_of(named@).take(i as int),
        decreases named.len() - i,
    {
        out.push(named[i].1.clone());
        i += 1;
        assert(out@ =~= before + texts_of(named@).take(i as int));
    }
    assert(texts_of(named@).take(i as int) =~= texts_of(named@));
}

impl ExtProc {
    /// External processing of one exchange.
    pub fn build(&self) -> (r: ExtProcRequest)
        ensures
            r == (ExtProcRequest {
                ext_proc: Some(ExtProcInstance::fresh(self.failure_mode, self.processing_options)),
            }),
    {
        ExtProcRequest {
            ext_proc: Some(ExtProcInstance::new(self.failure_mode, self.processing_options)),
        }
    }

    /// All expressions: those of the metadata, then those of the request attributes, then those
    /// of the response attributes.
    pub fn expressions(&self) -> (r: Vec<String>)
        ensures
            r@ == (match self.metadata_context {
                Some(groups) => all_texts(groups@),
                None => Seq::empty(),
            }) + optional_texts(self.request_attributes) + optional_texts(self.response_attributes),
    {
        let mut out: Vec<String> = Vec::new();
        if let Some(groups) = &self.metadata_context {
            let mut i: usize = 0;
            assert(groups@.take(0) =~= Seq::empty());
            while i < groups.len()
                invariant
                    i <= groups@.len(),
                    out@ == all_texts(groups@.take(i as int)),
                decreases groups.len() - i,
            {
                append_texts(&mut out, &groups[i].1);
                i += 1;
                assert(groups@.take(i as int).drop_last() =~= groups@.take(i - 1));
            }
            assert(groups@.take(i as int) =~= groups@);
        }
        if let Some(named) = &self.request_attributes {
            append_texts(&mut out, named);
        }
        if let Some(named) = &self.response_attributes {
            append_texts(&mut out, named);
        }
        out
    }
}

/// The attributes of a message: the evaluated expressions under the namespace of external
/// processing, where expressions are configured.
pub fn message_attributes(evaluated: Option<Vec<(String, Result<Json, String>)>>) -> (r: Vec<
    (String, Vec<(String, Json)>),
>)
    ensures
        match evaluated {
            None => r@.len() == 0,
            Some(e) => r@.len() == 1 && r@[0].0@ == EXTPROC_ATTRIBUTES_NAMESPACE@ && r@[0].1@
                == evaluated_fields(e@),
        },
{
    let mut out: Vec<(String, Vec<(String, Json)>)> = Vec::new();
    if let Some(e) = evaluated {
        out.push((EXTPROC_ATTRIBUTES_NAMESPACE.to_owned(), eval_to_struct(e)));
    }
    out
}

/// The metadata that goes with the messages of the response side where none is configured: the
/// destination that served the request, under the name that endpoint pickers expect.
pub fn served_destination_metadata(configured: bool, destination: Option<String>) -> (r: Option<
    (String, Json),
>)
    ensures
        match destination {
            Some(address) if !configured => r matches Some(entry) && entry.0@ == "envoy.lb"@
                && entry.1@ == JsonView::Object(
                Map::empty().insert(
                    "x-gateway-destination-endpoint-served"@,
                    JsonView::Str(address@),
                ),
            ),
            _ => r is None,
        },
        match served_destination(
            configured,
            match destination {
                Some(address) => Some(address@),
                None => None,
            },
        ) {
            Some(value) => r matches Some(entry) && entry.1@ == value,
            None => r is None,
        },
{
    match destination {
        Some(address) => {
            if configured {
                return None;
            }
            let value = Json::Str(address);
            let mut members: Vec<(String, Json)> = Vec::new();
            crate::json::put_member(
                &mut members,
                "x-gateway-destination-endpoint-served",
                value,
            );
            Some(("envoy.lb".to_owned(), Json::Object(members)))
        },
        None => None,
    }
}

/// The expressions of groups are those of each, one group after the other, each in its order.
pub proof fn law_expressions_are_listed_in_order(
    groups: Seq<(String, NamedExpressions)>,
    group: (String, NamedExpressions),
    i: int,
)
    ensures
        all_texts(Seq::empty()).len() == 0,
        all_texts(groups.push(group)).len() == all_texts(groups).len() + group.1@.len(),
        all_texts(groups.push(group)).take(all_texts(groups).len() as int) == all_texts(groups),
        0 <= i < group.1@.len() ==> all_texts(groups.push(group))[all_texts(groups).len() + i]
            == group.1@[i].1,
{
    let more = groups.push(group);
    assert(more.drop_last() =~= groups);
    assert(all_texts(more) == all_texts(groups) + texts_of(group.1@));
    assert(all_texts(more).take(all_texts(groups).len() as int) =~= all_texts(groups));
}

/// Only what is configured is listed.
pub proof fn law_missing_lists_hold_no_expressions(named: NamedExpressions, i: int)
    ensures
        optional_texts(None).len() == 0,
        optional_texts(Some(named)).len() == named@.len(),
        0 <= i < named@.len() ==> optional_texts(Some(named))[i] == named@[i].1,
{
}

/// What endpoint selection says about a request, given what the service left in it. Where there
/// is no service, nothing is picked and nothing is said.
pub open spec fn selected(
    router: InferencePoolRouter,
    picked: Option<String>,
    policy_response: Option<PolicyResponse>,
) -> InferenceRequestResult {
    match router.ext_proc {
        None => InferenceRequestResult {
            destination: None,
            destination_mode: InferenceRoutingDestinationMode::Validated,
            policy_response: PolicyResponse { direct_response: None },
            failed_open: false,
        },
        Some(ext_proc) => InferenceRequestResult {
            destination: picked,
            destination_mode: router.destination_mode,
            policy_response: match policy_response {
                Some(p) => p,
                None => PolicyResponse { direct_response: None },
            },
            failed_open: ext_proc.skipped,
        },
    }
}

/// What the service picked is used as it is, in the configured way, and whatever it answered is
/// answered; whether it was given up is told. Without a service, none of this counts.
pub proof fn law_picked_destinations_are_used(
    router: InferencePoolRouter,
    picked: Option<String>,
    answer: PolicyResponse,
)
    ensures
        router.ext_proc matches Some(ext_proc) ==> ({
            let with = selected(router, picked, Some(answer));
            &&& with.destination == picked
            &&& with.destination_mode == router.destination_mode
            &&& with.policy_response == answer
            &&& with.failed_open == ext_proc.skipped
            &&& selected(router, picked, None).policy_response.direct_response is None
            &&& selected(router, picked, None).destination == picked
        }),
        router.ext_proc is None ==> selected(router, picked, Some(answer)).destination is None
            && selected(router, picked, Some(answer)).policy_response.direct_response is None
            && !selected(router, picked, Some(answer)).failed_open,
{
}

/// The destination that goes with the messages of the response side, if one does: none where
/// metadata are configured, or where nothing is known to have served the request.
pub open spec fn served_destination(configured: bool, destination: Option<Seq<char>>) -> Option<
    JsonView,
> {
    if configured || destination is None {
        None
    } else {
        Some(
            JsonView::Object(
                map!["x-gateway-destination-endpoint-served"@ => JsonView::Str(destination->0)],
            ),
        )
    }
}

/// The destination that served a request is told as it is, and nothing else with it, unless
/// metadata are configured.
pub proof fn law_served_destinations_are_told(address: Seq<char>)
    ensures
        served_destination(false, Some(address)) matches Some(JsonView::Object(m)) && m.dom()
            == set!["x-gateway-destination-endpoint-served"@]
            && m["x-gateway-destination-endpoint-served"@] == JsonView::Str(address),
        served_destination(true, Some(address)) is None,
        served_destination(false, None) is None,
{
    let m = served_destination(false, Some(address))->0->Object_0;
    assert(m.dom() =~= set!["x-gateway-destination-endpoint-served"@]);
}

/// A header can be read as text where it holds no control characters but tabs, and nothing beyond
/// ASCII.
pub proof fn law_header_texts_are_plain(b: u8)
    ensures
        b < 32 && b != 9 ==> !is_header_text_byte(b),
        b >= 127 ==> !is_header_text_byte(b),
        is_header_text_byte(9),
        32 <= b <= 126 ==> is_header_text_byte(b),
{
}

} // verus!
