//! The interaction builder: a pact document plus an explicit cursor that
//! identifies the one interaction currently under construction.
//!
//! The cursor is a tagged state: `Idle`, or `Building(i)` with `i` the
//! index of the open interaction, which is always the last one of the
//! document. Every construction verb goes through one shared accessor:
//! when the builder is idle, the accessor appends a fresh interaction and
//! opens it, so the first verb of a new interaction implicitly begins it.
//! `will_respond_with` is the only verb that closes the open interaction.

use vstd::prelude::*;

use crate::body::{
    process_body, spec_effective_ct, spec_inferred_ct, BodyError,
};
use crate::pact::{
    default_interaction_model, initial_metadata_model, multimap_model, opt_map_set,
    opt_text_model, spec_add_rule, spec_ensure_category, spec_opt_map_first_value,
    spec_opt_map_lookup, spec_opt_map_set, BodyModel, Interaction, InteractionModel, MatchRule,
    MatchRuleModel, OptionalBody, Pact, PactModel, ProviderState, ProviderStateModel, RequestModel,
    ResponseModel, RuleEntryModel, RuleLogic,
};
use crate::value::{
    spec_shape_name, to_canon, to_canon_entries, to_canonical, ConversionError, DynamicValue,
    JsonModel, JsonValue, ValueModel,
};
use crate::json_text::json_bytes;
use crate::registry::{InstanceModel, MockServerHandle, MockServerRegistry, StartError};
use vstd::utf8::encode_utf8;

verus! {

// ---------------------------------------------------------------------------
// The builder and its state
// ---------------------------------------------------------------------------

/// The cursor: idle, or building the interaction at the given index.
#[derive(Debug, PartialEq, Eq)]
pub enum BuilderState {
    Idle,
    Building(usize),
}

/// Owns one pact document and the cursor into it.
#[derive(Debug, PartialEq, Eq)]
pub struct InteractionBuilder {
    pub pact: Pact,
    pub state: BuilderState,
}

#[verifier::ext_equal]
pub struct BuilderModel {
    pub pact: PactModel,
    pub open: Option<int>,
}

impl View for InteractionBuilder {
    type V = BuilderModel;

    open spec fn view(&self) -> BuilderModel {
        BuilderModel {
            pact: self.pact@,
            open: match self.state {
                BuilderState::Idle => Option::None,
                BuilderState::Building(i) => Option::Some(i as int),
            },
        }
    }
}

/// The cursor invariant: at most one interaction is open — the state holds
/// at most one index — and an open interaction is always the last one of
/// the document.
pub open spec fn builder_wf(b: BuilderModel) -> bool {
    match b.open {
        Option::Some(i) => i + 1 == b.pact.interactions.len(),
        Option::None => true,
    }
}

impl InteractionBuilder {
    pub open spec fn wf(&self) -> bool {
        builder_wf(self@)
    }
}

// ---------------------------------------------------------------------------
// Errors
// ---------------------------------------------------------------------------

/// Why a builder verb failed.
#[derive(Debug, PartialEq, Eq)]
pub enum BuilderError {
    /// A value inside a structured argument was of an unrecognized host
    /// kind.
    Conversion(ConversionError),
    /// A structured parameter had the wrong shape.
    InvalidArgumentType { parameter: String, expected: String, actual: String },
    /// A body value's shape is not mapping, sequence, or string.
    UnsupportedBodyType { actual: String },
    /// A binary body's file could not be read.
    FileRead { path: String, cause: String },
}

// ---------------------------------------------------------------------------
// Spec transitions
// ---------------------------------------------------------------------------

/// The builder after the shared accessor ran: unchanged when an
/// interaction is already open; otherwise a fresh interaction is appended
/// after all existing ones and opened.
pub open spec fn spec_opened(b: BuilderModel) -> BuilderModel {
    match b.open {
        Option::Some(_) => b,
        Option::None => BuilderModel {
            pact: PactModel {
                interactions: b.pact.interactions.push(default_interaction_model()),
                ..b.pact
            },
            open: Option::Some(b.pact.interactions.len() as int),
        },
    }
}

/// The open interaction of a builder whose accessor has run.
pub open spec fn spec_open_interaction(b: BuilderModel) -> InteractionModel {
    match b.open {
        Option::Some(i) => b.pact.interactions[i],
        Option::None => default_interaction_model(),
    }
}

/// The builder with the open interaction replaced.
pub open spec fn spec_update_open(b: BuilderModel, it: InteractionModel) -> BuilderModel {
    match b.open {
        Option::Some(i) => BuilderModel {
            pact: PactModel { interactions: b.pact.interactions.update(i, it), ..b.pact },
            open: b.open,
        },
        Option::None => b,
    }
}

/// The builder with the cursor closed.
pub open spec fn spec_close(b: BuilderModel) -> BuilderModel {
    BuilderModel { pact: b.pact, open: Option::None }
}

/// `given`: a provider state is appended to the open interaction.
pub open spec fn spec_given_step(
    b: BuilderModel,
    name: Seq<char>,
    params: Seq<(Seq<char>, JsonModel)>,
) -> BuilderModel {
    let ob = spec_opened(b);
    let it = spec_open_interaction(ob);
    spec_update_open(
        ob,
        InteractionModel {
            provider_states: it.provider_states.push(ProviderStateModel { name, params }),
            ..it
        },
    )
}

/// `upon_receiving`: the open interaction's description is replaced.
pub open spec fn spec_describe_step(b: BuilderModel, description: Seq<char>) -> BuilderModel {
    let ob = spec_opened(b);
    let it = spec_open_interaction(ob);
    spec_update_open(ob, InteractionModel { description, ..it })
}

/// A query or header mapping as it lands in the message: each string value
/// becomes a one-element row; a value of any other shape is dropped to an
/// empty row, with no matching-rule inference.
pub open spec fn spec_plain_multimap(entries: Seq<(Seq<char>, ValueModel)>) -> Seq<
    (Seq<char>, Seq<Seq<char>>),
> {
    entries.map_values(
        |e: (Seq<char>, ValueModel)|
            (
                e.0,
                match e.1 {
                    ValueModel::Text(s) => seq![s],
                    _ => Seq::<Seq<char>>::empty(),
                },
            ),
    )
}

/// The request-field phase shared by `with_request` and the binary-file
/// verb: the method is always set; a string path is set and any other path
/// shape is left for a later matcher version; a non-empty query or header
/// mapping replaces the message's map, an empty or absent one changes
/// nothing.
pub open spec fn spec_request_fields_step(
    b: BuilderModel,
    method: Seq<char>,
    path: ValueModel,
    query: ValueModel,
    headers: ValueModel,
) -> BuilderModel {
    let ob = spec_opened(b);
    let it = spec_open_interaction(ob);
    let req = it.request;
    spec_update_open(
        ob,
        InteractionModel {
            request: RequestModel {
                method,
                path: match path {
                    ValueModel::Text(s) => s,
                    _ => req.path,
                },
                query: match query {
                    ValueModel::Mapping(es) => if es.len() > 0 {
                        Option::Some(spec_plain_multimap(es))
                    } else {
                        req.query
                    },
                    _ => req.query,
                },
                headers: match headers {
                    ValueModel::Mapping(es) => if es.len() > 0 {
                        Option::Some(spec_plain_multimap(es))
                    } else {
                        req.headers
                    },
                    _ => req.headers,
                },
                ..req
            },
            ..it
        },
    )
}

/// The status-and-header phase of `will_respond_with`.
pub open spec fn spec_response_fields_step(
    b: BuilderModel,
    status: u16,
    headers: ValueModel,
) -> BuilderModel {
    let ob = spec_opened(b);
    let it = spec_open_interaction(ob);
    let resp = it.response;
    spec_update_open(
        ob,
        InteractionModel {
            response: ResponseModel {
                status,
                headers: match headers {
                    ValueModel::Mapping(es) => if es.len() > 0 {
                        Option::Some(spec_plain_multimap(es))
                    } else {
                        resp.headers
                    },
                    _ => resp.headers,
                },
                ..resp
            },
            ..it
        },
    )
}

/// The content type the open interaction's request declares.
pub open spec fn spec_request_declared_ct(b: BuilderModel) -> Option<Seq<char>> {
    spec_opt_map_first_value(spec_open_interaction(b).request.headers, "Content-Type"@)
}

/// The content type the open interaction's response declares.
pub open spec fn spec_response_declared_ct(b: BuilderModel) -> Option<Seq<char>> {
    spec_opt_map_first_value(spec_open_interaction(b).response.headers, "Content-Type"@)
}

/// The body phase on the request: the body is stored; for a structured
/// body the "body" rule category is made sure to exist, and a reported
/// content type lands in the Content-Type header.
pub open spec fn spec_set_request_body(
    b: BuilderModel,
    body: BodyModel,
    inferred: Option<Seq<char>>,
    structured: bool,
) -> BuilderModel {
    let it = spec_open_interaction(b);
    let req = it.request;
    spec_update_open(
        b,
        InteractionModel {
            request: RequestModel {
                body,
                matching_rules: if structured {
                    spec_ensure_category(req.matching_rules, "body"@)
                } else {
                    req.matching_rules
                },
                headers: match inferred {
                    Option::Some(ct) => Option::Some(
                        spec_opt_map_set(req.headers, "Content-Type"@, seq![ct]),
                    ),
                    Option::None => req.headers,
                },
                ..req
            },
            ..it
        },
    )
}

/// The body phase on the response.
pub open spec fn spec_set_response_body(
    b: BuilderModel,
    body: BodyModel,
    inferred: Option<Seq<char>>,
    structured: bool,
) -> BuilderModel {
    let it = spec_open_interaction(b);
    let resp = it.response;
    spec_update_open(
        b,
        InteractionModel {
            response: ResponseModel {
                body,
                matching_rules: if structured {
                    spec_ensure_category(resp.matching_rules, "body"@)
                } else {
                    resp.matching_rules
                },
                headers: match inferred {
                    Option::Some(ct) => Option::Some(
                        spec_opt_map_set(resp.headers, "Content-Type"@, seq![ct]),
                    ),
                    Option::None => resp.headers,
                },
                ..resp
            },
            ..it
        },
    )
}

/// The binary-file phase: the file's bytes become the literal body, a
/// content-type rule is registered at the body root, and the
/// octet-stream header default applies only when no Content-Type header
/// stands yet.
pub open spec fn spec_binary_body_step(
    b: BuilderModel,
    content_type: Seq<char>,
    bytes: Seq<u8>,
) -> BuilderModel {
    let it = spec_open_interaction(b);
    let req = it.request;
    spec_update_open(
        b,
        InteractionModel {
            request: RequestModel {
                body: BodyModel::Present(bytes, Option::None),
                matching_rules: spec_add_rule(
                    req.matching_rules,
                    "body"@,
                    RuleEntryModel {
                        path: "$"@,
                        rule: MatchRuleModel::ContentType(content_type),
                        logic: RuleLogic::RequireAll,
                    },
                ),
                headers: if spec_opt_map_lookup(req.headers, "Content-Type"@) is Some {
                    req.headers
                } else {
                    Option::Some(
                        spec_opt_map_set(
                            req.headers,
                            "Content-Type"@,
                            seq!["application/octet-stream"@],
                        ),
                    )
                },
                ..req
            },
            ..it
        },
    )
}

// ---------------------------------------------------------------------------
// Outcome predicates
// ---------------------------------------------------------------------------

pub open spec fn spec_invalid_argument(
    r: Result<(), BuilderError>,
    parameter: Seq<char>,
    value: ValueModel,
) -> bool {
    &&& r matches Err(BuilderError::InvalidArgumentType { parameter: p, expected, actual })
    &&& p@ == parameter
    &&& expected@ == "mapping"@
    &&& actual@ == spec_shape_name(value)
}

/// Everything `with_request` promises, case by case.
pub open spec fn spec_with_request_outcome(
    b0: BuilderModel,
    b1: BuilderModel,
    method: Seq<char>,
    path: ValueModel,
    query: ValueModel,
    headers: ValueModel,
    body: ValueModel,
    r: Result<(), BuilderError>,
) -> bool {
    if !(query is Mapping || query is Absent) {
        spec_invalid_argument(r, "query"@, query) && b1 == b0
    } else if !(headers is Mapping || headers is Absent) {
        spec_invalid_argument(r, "headers"@, headers) && b1 == b0
    } else {
        let staged = spec_request_fields_step(b0, method, path, query, headers);
        let declared = spec_request_declared_ct(staged);
        match body {
            ValueModel::Absent => r is Ok && b1 == staged,
            ValueModel::Text(s) => r is Ok && b1 == spec_set_request_body(
                staged,
                BodyModel::Present(encode_utf8(s), declared),
                Option::None,
                false,
            ),
            ValueModel::Mapping(_) => spec_structured_request_body_outcome(
                staged,
                b1,
                body,
                declared,
                r,
            ),
            ValueModel::Sequence(_) => spec_structured_request_body_outcome(
                staged,
                b1,
                body,
                declared,
                r,
            ),
            _ => {
                &&& r matches Err(BuilderError::UnsupportedBodyType { actual })
                &&& actual@ == spec_shape_name(body)
                &&& b1 == staged
            },
        }
    }
}

pub open spec fn spec_structured_request_body_outcome(
    staged: BuilderModel,
    b1: BuilderModel,
    body: ValueModel,
    declared: Option<Seq<char>>,
    r: Result<(), BuilderError>,
) -> bool {
    match to_canon(body) {
        Ok(j) => r is Ok && b1 == spec_set_request_body(
            staged,
            BodyModel::Present(json_bytes(j), Option::Some(spec_effective_ct(declared))),
            spec_inferred_ct(declared),
            true,
        ),
        Err(e) => {
            &&& r matches Err(BuilderError::Conversion(ce))
            &&& ce@ == e
            &&& b1 == staged
        },
    }
}

/// Everything `will_respond_with` promises. Whatever happens, the cursor
/// closes: this is the one verb that ends an interaction.
pub open spec fn spec_will_respond_outcome(
    b0: BuilderModel,
    b1: BuilderModel,
    status: u16,
    headers: ValueModel,
    body: ValueModel,
    r: Result<(), BuilderError>,
) -> bool {
    if !(headers is Mapping || headers is Absent) {
        spec_invalid_argument(r, "headers"@, headers) && b1 == spec_close(b0)
    } else {
        let staged = spec_response_fields_step(b0, status, headers);
        let req_declared = spec_request_declared_ct(staged);
        let resp_declared = spec_response_declared_ct(staged);
        match body {
            ValueModel::Absent => r is Ok && b1 == spec_close(staged),
            ValueModel::Text(s) => r is Ok && b1 == spec_close(
                spec_set_response_body(
                    staged,
                    BodyModel::Present(encode_utf8(s), resp_declared),
                    Option::None,
                    false,
                ),
            ),
            ValueModel::Mapping(_) => spec_structured_response_body_outcome(
                staged,
                b1,
                body,
                req_declared,
                r,
            ),
            ValueModel::Sequence(_) => spec_structured_response_body_outcome(
                staged,
                b1,
                body,
                req_declared,
                r,
            ),
            _ => {
                &&& r matches Err(BuilderError::UnsupportedBodyType { actual })
                &&& actual@ == spec_shape_name(body)
                &&& b1 == spec_close(staged)
            },
        }
    }
}

pub open spec fn spec_structured_response_body_outcome(
    staged: BuilderModel,
    b1: BuilderModel,
    body: ValueModel,
    declared: Option<Seq<char>>,
    r: Result<(), BuilderError>,
) -> bool {
    match to_canon(body) {
        Ok(j) => r is Ok && b1 == spec_close(
            spec_set_response_body(
                staged,
                BodyModel::Present(json_bytes(j), Option::Some(spec_effective_ct(declared))),
                spec_inferred_ct(declared),
                true,
            ),
        ),
        Err(e) => {
            &&& r matches Err(BuilderError::Conversion(ce))
            &&& ce@ == e
            &&& b1 == spec_close(staged)
        },
    }
}

/// Everything the binary-file verb promises.
pub open spec fn spec_binary_file_outcome(
    b0: BuilderModel,
    b1: BuilderModel,
    content_type: Seq<char>,
    file_path: Seq<char>,
    file: Result<Vec<u8>, String>,
    method: Seq<char>,
    path: ValueModel,
    query: ValueModel,
    headers: ValueModel,
    r: Result<(), BuilderError>,
) -> bool {
    if !(query is Mapping || query is Absent) {
        spec_invalid_argument(r, "query"@, query) && b1 == b0
    } else if !(headers is Mapping || headers is Absent) {
        spec_invalid_argument(r, "headers"@, headers) && b1 == b0
    } else {
        let staged = spec_request_fields_step(b0, method, path, query, headers);
        match file {
            Ok(bytes) => r is Ok && b1 == spec_binary_body_step(staged, content_type, bytes@),
            Err(cause) => {
                &&& r matches Err(BuilderError::FileRead { path: p, cause: c })
                &&& p@ == file_path
                &&& c@ == cause@
                &&& b1 == staged
            },
        }
    }
}

// ---------------------------------------------------------------------------
// The cursor law
// ---------------------------------------------------------------------------

/// After any sequence of verbs at most one interaction is open, because the
/// cursor holds at most one index; this lemma states the rest of the
/// discipline: opening from the idle state appends one fresh interaction
/// after all existing ones, leaves them untouched, and opens exactly the
/// appended one, while opening an already-open builder changes nothing.
pub proof fn lemma_cursor_discipline(b: BuilderModel)
    requires
        builder_wf(b),
    ensures
        builder_wf(spec_opened(b)),
        spec_opened(b).open is Some,
        b.open is None ==> {
            &&& spec_opened(b).pact.interactions.len() == b.pact.interactions.len() + 1
            &&& spec_opened(b).open == Option::Some(b.pact.interactions.len() as int)
            &&& spec_opened(b).pact.interactions.take(b.pact.interactions.len() as int)
                == b.pact.interactions
            &&& spec_opened(b).pact.interactions.last() == default_interaction_model()
        },
        b.open is Some ==> spec_opened(b) == b,
{
    if b.open is None {
        assert(spec_opened(b).pact.interactions.take(b.pact.interactions.len() as int)
            =~= b.pact.interactions);
    }
}

// ---------------------------------------------------------------------------
// The builder, executable
// ---------------------------------------------------------------------------

fn invalid_mapping_argument(parameter: &str, value: &DynamicValue) -> (e: BuilderError)
    ensures
        e matches BuilderError::InvalidArgumentType { parameter: p, expected, actual }
            && p@ == parameter@ && expected@ == "mapping"@ && actual@ == spec_shape_name(value@),
{
    BuilderError::InvalidArgumentType {
        parameter: String::from_str(parameter),
        expected: String::from_str("mapping"),
        actual: value.shape_name(),
    }
}

/// Builds the message form of a query or header mapping; see
/// `spec_plain_multimap`.
#[verifier::loop_isolation(false)]
fn build_plain_multimap(entries: &Vec<(String, DynamicValue)>) -> (r: Vec<(String, Vec<String>)>)
    ensures
        multimap_model(r@) == spec_plain_multimap(crate::value::value_model_entries(entries@)),
{
    let ghost target = spec_plain_multimap(crate::value::value_model_entries(entries@));
    proof {
        crate::value::lemma_value_model_entries(entries@);
    }
    let mut out: Vec<(String, Vec<String>)> = Vec::new();
    let mut i: usize = 0;
    while i < entries.len()
        invariant
            i <= entries.len(),
            out@.len() == i,
            multimap_model(out@) =~~= target.take(i as int),
        decreases entries.len() - i,
    {
        let k = entries[i].0.clone();
        let mut row: Vec<String> = Vec::new();
        match &entries[i].1 {
            DynamicValue::Text(s) => {
                row.push(s.clone());
            },
            _ => {},
        }
        out.push((k, row));
        proof {
            assert(multimap_model(out@) =~~= target.take(i as int + 1));
        }
        i = i + 1;
    }
    proof {
        assert(target.take(entries@.len() as int) =~= target);
    }
    out
}

impl InteractionBuilder {
    /// A builder for one consumer/provider pair, with an empty document
    /// and an idle cursor.
    pub fn new(consumer_name: &str, provider_name: &str, version: &str) -> (r: InteractionBuilder)
        ensures
            r.wf(),
            r@.open is None,
            r@.pact.consumer == consumer_name@,
            r@.pact.provider == provider_name@,
            r@.pact.metadata == initial_metadata_model(version@),
            r@.pact.interactions == Seq::<InteractionModel>::empty(),
    {
        InteractionBuilder {
            pact: Pact::new(consumer_name, provider_name, version),
            state: BuilderState::Idle,
        }
    }

    /// The shared accessor: makes sure one interaction is open and returns
    /// its index.
    fn ensure_open(&mut self) -> (idx: usize)
        requires
            old(self).wf(),
        ensures
            final(self).wf(),
            final(self)@ == spec_opened(old(self)@),
            final(self)@.open == Option::Some(idx as int),
            idx < final(self)@.pact.interactions.len(),
    {
        match self.state {
            BuilderState::Building(i) => i,
            BuilderState::Idle => {
                let idx = self.pact.interactions.len();
                self.pact.interactions.push(Interaction::default());
                self.state = BuilderState::Building(idx);
                proof {
                    assert(self@ =~~= spec_opened(old(self)@));
                }
                idx
            },
        }
    }

    /// Appends a provider state to the open interaction, opening one if
    /// none is. The parameters must be a mapping (or absent, for none);
    /// their values are converted to canonical JSON, and a conversion
    /// failure leaves the builder unchanged.
    pub fn given(&mut self, state_name: &str, params: &DynamicValue) -> (r: Result<
        (),
        BuilderError,
    >)
        requires
            old(self).wf(),
        ensures
            final(self).wf(),
            match params@ {
                ValueModel::Mapping(entries) => match to_canon_entries(entries) {
                    Ok(conv) => r is Ok && final(self)@ == spec_given_step(
                        old(self)@,
                        state_name@,
                        conv,
                    ),
                    Err(e) => {
                        &&& r matches Err(BuilderError::Conversion(ce))
                        &&& ce@ == e
                        &&& final(self)@ == old(self)@
                    },
                },
                ValueModel::Absent => r is Ok && final(self)@ == spec_given_step(
                    old(self)@,
                    state_name@,
                    Seq::empty(),
                ),
                _ => spec_invalid_argument(r, "params"@, params@) && final(self)@ == old(self)@,
            },
    {
        let converted: Vec<(String, JsonValue)> = match params {
            DynamicValue::Mapping(_) => {
                match to_canonical(params) {
                    Ok(JsonValue::Object(entries)) => entries,
                    Ok(_) => {
                        proof {
                            assert(false);
                        }
                        Vec::new()
                    },
                    Err(e) => {
                        return Err(BuilderError::Conversion(e));
                    },
                }
            },
            DynamicValue::Absent => Vec::new(),
            _ => {
                return Err(invalid_mapping_argument("params", params));
            },
        };
        let idx = self.ensure_open();
        let ghost opened = self@;
        let it = &mut self.pact.interactions[idx];
        it.provider_states.push(
            ProviderState { name: String::from_str(state_name), params: converted },
        );
        proof {
            assert(self@ =~~= spec_update_open(
                opened,
                InteractionModel {
                    provider_states: spec_open_interaction(opened).provider_states.push(
                        ProviderStateModel {
                            name: state_name@,
                            params: crate::value::json_model_entries(converted@),
                        },
                    ),
                    ..spec_open_interaction(opened)
                },
            ));
        }
        Ok(())
    }

    /// Replaces the open interaction's description, opening one if none
    /// is.
    pub fn upon_receiving(&mut self, description: &str)
        requires
            old(self).wf(),
        ensures
            final(self).wf(),
            final(self)@ == spec_describe_step(old(self)@, description@),
    {
        let idx = self.ensure_open();
        let ghost opened = self@;
        let it = &mut self.pact.interactions[idx];
        it.description = String::from_str(description);
        proof {
            assert(self@ =~~= spec_update_open(
                opened,
                InteractionModel { description: description@, ..spec_open_interaction(opened) },
            ));
        }
    }
}


impl InteractionBuilder {
    /// Populates the open interaction's request, opening one if none is:
    /// method always, a string path verbatim, query and headers from
    /// mappings of strings, and the body through the body processor. The
    /// query and header shapes are checked before anything is touched; a
    /// body failure leaves the fields already applied, as the shared
    /// accessor protocol prescribes.
    #[verifier::rlimit(60)]
    pub fn with_request(
        &mut self,
        method: &str,
        path: &DynamicValue,
        query: &DynamicValue,
        headers: &DynamicValue,
        body: &DynamicValue,
    ) -> (r: Result<(), BuilderError>)
        requires
            old(self).wf(),
        ensures
            final(self).wf(),
            spec_with_request_outcome(
                old(self)@,
                final(self)@,
                method@,
                path@,
                query@,
                headers@,
                body@,
                r,
            ),
    {
        let staged_query: Option<Vec<(String, Vec<String>)>> = match query {
            DynamicValue::Mapping(entries) => {
                proof {
                    crate::value::lemma_value_model_entries(entries@);
                }
                Option::Some(build_plain_multimap(entries))
            },
            DynamicValue::Absent => Option::None,
            _ => {
                return Err(invalid_mapping_argument("query", query));
            },
        };
        let staged_headers: Option<Vec<(String, Vec<String>)>> = match headers {
            DynamicValue::Mapping(entries) => {
                proof {
                    crate::value::lemma_value_model_entries(entries@);
                }
                Option::Some(build_plain_multimap(entries))
            },
            DynamicValue::Absent => Option::None,
            _ => {
                return Err(invalid_mapping_argument("headers", headers));
            },
        };
        proof {
            match query@ {
                ValueModel::Mapping(es) => {
                    assert(staged_query is Some);
                    match &staged_query {
                        Option::Some(m) => {
                            assert(multimap_model(m@) == spec_plain_multimap(es));
                            assert(m@.len() == es.len());
                        },
                        Option::None => {
                            assert(false);
                        },
                    }
                },
                ValueModel::Absent => {
                    assert(staged_query is None);
                },
                _ => {
                    assert(false);
                },
            }
            match headers@ {
                ValueModel::Mapping(es) => {
                    assert(staged_headers matches Option::Some(m) && multimap_model(m@)
                        == spec_plain_multimap(es) && m@.len() == es.len());
                },
                ValueModel::Absent => {
                    assert(staged_headers is None);
                },
                _ => {
                    assert(false);
                },
            }
        }
        let idx = self.ensure_open();
        {
            let it = &mut self.pact.interactions[idx];
            it.request.method = String::from_str(method);
            match path {
                DynamicValue::Text(s) => {
                    it.request.path = s.clone();
                },
                _ => {},
            }
            match staged_query {
                Option::Some(m) => {
                    if m.len() > 0 {
                        it.request.query = Option::Some(m);
                    }
                },
                Option::None => {},
            }
            match staged_headers {
                Option::Some(m) => {
                    if m.len() > 0 {
                        it.request.headers = Option::Some(m);
                    }
                },
                Option::None => {},
            }
        }
        let ghost staged = spec_request_fields_step(old(self)@, method@, path@, query@, headers@);
        proof {
            let i = idx as int;
            let a = self@.pact.interactions;
            let b = staged.pact.interactions;
            assert(staged.open == Option::Some(i));
            assert(a.len() == b.len());
            assert(forall|k: int| 0 <= k < a.len() && k != i ==> a[k] == b[k]);
            assert(a[i].description == b[i].description);
            assert(a[i].provider_states == b[i].provider_states);
            assert(a[i].response == b[i].response);
            assert(a[i].request.method == b[i].request.method);
            assert(a[i].request.path == b[i].request.path);
            assert(a[i].request.query == b[i].request.query);
            assert(a[i].request.headers == b[i].request.headers);
            assert(a[i].request.body == b[i].request.body);
            assert(a[i].request.matching_rules == b[i].request.matching_rules);
            assert(a[i].request.generators == b[i].request.generators);
            assert(a[i].request =~~= b[i].request);
            assert(a[i] =~~= b[i]);
            assert(a =~~= b);
            assert(self@ =~~= staged);
        }
        match body {
            DynamicValue::Absent => Ok(()),
            DynamicValue::Text(_) | DynamicValue::Mapping(_) | DynamicValue::Sequence(_) => {
                let declared = self.pact.interactions[idx].request.declared_content_type();
                let it = &mut self.pact.interactions[idx];
                let outcome = process_body(
                    body,
                    &declared,
                    &mut it.request.matching_rules,
                    &mut it.request.generators,
                );
                match outcome {
                    Ok((processed, inferred)) => {
                        let ghost processed_model = processed@;
                        let ghost inferred_model = opt_text_model(inferred);
                        let ghost declared_model = opt_text_model(declared);
                        let ghost structured = !(body@ is Text);
                        let ghost body_target = spec_set_request_body(
                            staged,
                            processed_model,
                            inferred_model,
                            structured,
                        );
                        it.request.body = processed;
                        match inferred {
                            Option::Some(ct) => {
                                let ghost ct_model = ct@;
                                let mut row: Vec<String> = Vec::new();
                                row.push(ct);
                                proof {
                                    assert(row@.map_values(|v: String| v@) =~= seq![ct_model]);
                                }
                                opt_map_set(
                                    &mut self.pact.interactions[idx].request.headers,
                                    String::from_str("Content-Type"),
                                    row,
                                );
                            },
                            Option::None => {},
                        }
                        proof {
                            assert(declared_model == spec_request_declared_ct(staged));
                            let i = idx as int;
                            let a = self@.pact.interactions;
                            let b = body_target.pact.interactions;
                            assert(body_target.open == Option::Some(i));
                            assert(a.len() == b.len());
                            assert(forall|k: int| 0 <= k < a.len() && k != i ==> a[k] == b[k]);
                            assert(a[i].description == b[i].description);
                            assert(a[i].provider_states == b[i].provider_states);
                            assert(a[i].response == b[i].response);
                            assert(a[i].request.method == b[i].request.method);
                            assert(a[i].request.path == b[i].request.path);
                            assert(a[i].request.query == b[i].request.query);
                            assert(a[i].request.headers == b[i].request.headers);
                            assert(a[i].request.body == b[i].request.body);
                            assert(a[i].request.matching_rules == b[i].request.matching_rules);
                            assert(a[i].request.generators == b[i].request.generators);
                            assert(a[i].request =~~= b[i].request);
                            assert(a[i] =~~= b[i]);
                            assert(a =~~= b);
                            assert(self@ =~~= body_target);
                            match body@ {
                                ValueModel::Text(s) => {
                                    assert(processed_model == BodyModel::Present(
                                        encode_utf8(s),
                                        spec_request_declared_ct(staged),
                                    ));
                                    assert(inferred_model is None);
                                    assert(self@ =~~= spec_set_request_body(
                                        staged,
                                        BodyModel::Present(
                                            encode_utf8(s),
                                            spec_request_declared_ct(staged),
                                        ),
                                        Option::None,
                                        false,
                                    ));
                                },
                                _ => {
                                    assert(self@ =~~= spec_set_request_body(
                                        staged,
                                        BodyModel::Present(
                                            json_bytes(to_canon(body@)->Ok_0),
                                            Option::Some(
                                                spec_effective_ct(spec_request_declared_ct(staged)),
                                            ),
                                        ),
                                        spec_inferred_ct(spec_request_declared_ct(staged)),
                                        true,
                                    ));
                                },
                            }
                        }
                        Ok(())
                    },
                    Err(BodyError::Conversion(e)) => {
                        proof {
                            assert(self@ =~~= staged);
                        }
                        Err(BuilderError::Conversion(e))
                    },
                    Err(BodyError::UnsupportedBodyType { actual }) => {
                        proof {
                            assert(false);
                        }
                        Err(BuilderError::UnsupportedBodyType { actual })
                    },
                }
            },
            _ => Err(BuilderError::UnsupportedBodyType { actual: body.shape_name() }),
        }
    }

    /// Populates the open interaction's response — status, headers from a
    /// mapping of strings, and the body through the body processor — and
    /// then closes the interaction. This is the only verb that closes:
    /// whatever the outcome, the cursor ends idle, and the next verb will
    /// open a brand-new interaction.
    #[verifier::rlimit(60)]
    pub fn will_respond_with(
        &mut self,
        status: u16,
        headers: &DynamicValue,
        body: &DynamicValue,
    ) -> (r: Result<(), BuilderError>)
        requires
            old(self).wf(),
        ensures
            final(self).wf(),
            final(self)@.open is None,
            spec_will_respond_outcome(old(self)@, final(self)@, status, headers@, body@, r),
    {
        let staged_headers: Option<Vec<(String, Vec<String>)>> = match headers {
            DynamicValue::Mapping(entries) => {
                proof {
                    crate::value::lemma_value_model_entries(entries@);
                }
                Option::Some(build_plain_multimap(entries))
            },
            DynamicValue::Absent => Option::None,
            _ => {
                self.state = BuilderState::Idle;
                return Err(invalid_mapping_argument("headers", headers));
            },
        };
        proof {
            match headers@ {
                ValueModel::Mapping(es) => {
                    assert(staged_headers is Some);
                    match &staged_headers {
                        Option::Some(m) => {
                            assert(multimap_model(m@) == spec_plain_multimap(es));
                            assert(m@.len() == es.len());
                        },
                        Option::None => {
                            assert(false);
                        },
                    }
                },
                ValueModel::Absent => {
                    assert(staged_headers is None);
                },
                _ => {
                    assert(false);
                },
            }
        }
        let idx = self.ensure_open();
        {
            let it = &mut self.pact.interactions[idx];
            it.response.status = status;
            match staged_headers {
                Option::Some(m) => {
                    if m.len() > 0 {
                        it.response.headers = Option::Some(m);
                    }
                },
                Option::None => {},
            }
        }
        let ghost staged = spec_response_fields_step(old(self)@, status, headers@);
        proof {
            assert(self@ =~~= staged);
        }
        match body {
            DynamicValue::Absent => {
                self.state = BuilderState::Idle;
                Ok(())
            },
            DynamicValue::Text(_) | DynamicValue::Mapping(_) | DynamicValue::Sequence(_) => {
                let declared = match body {
                    DynamicValue::Text(_) => self.pact.interactions[
                        idx
                    ].response.declared_content_type(),
                    _ => self.pact.interactions[idx].request.declared_content_type(),
                };
                let it = &mut self.pact.interactions[idx];
                let outcome = process_body(
                    body,
                    &declared,
                    &mut it.response.matching_rules,
                    &mut it.response.generators,
                );
                match outcome {
                    Ok((processed, inferred)) => {
                        let ghost processed_model = processed@;
                        let ghost inferred_model = opt_text_model(inferred);
                        let ghost declared_model = opt_text_model(declared);
                        let ghost structured = !(body@ is Text);
                        let ghost body_target = spec_set_response_body(
                            staged,
                            processed_model,
                            inferred_model,
                            structured,
                        );
                        it.response.body = processed;
                        match inferred {
                            Option::Some(ct) => {
                                let ghost ct_model = ct@;
                                let mut row: Vec<String> = Vec::new();
                                row.push(ct);
                                proof {
                                    assert(row@.map_values(|v: String| v@) =~= seq![ct_model]);
                                }
                                opt_map_set(
                                    &mut self.pact.interactions[idx].response.headers,
                                    String::from_str("Content-Type"),
                                    row,
                                );
                            },
                            Option::None => {},
                        }
                        self.state = BuilderState::Idle;
                        proof {
                            match body@ {
                                ValueModel::Text(_) => {
                                    assert(declared_model == spec_response_declared_ct(staged));
                                },
                                _ => {
                                    assert(declared_model == spec_request_declared_ct(staged));
                                },
                            }
                            let i = idx as int;
                            let a = self@.pact.interactions;
                            let b = body_target.pact.interactions;
                            assert(body_target.open == Option::Some(i));
                            assert(a.len() == b.len());
                            assert(forall|k: int| 0 <= k < a.len() && k != i ==> a[k] == b[k]);
                            assert(a[i].description == b[i].description);
                            assert(a[i].provider_states == b[i].provider_states);
                            assert(a[i].request == b[i].request);
                            assert(a[i].response.status == b[i].response.status);
                            assert(a[i].response.headers == b[i].response.headers);
                            assert(a[i].response.body == b[i].response.body);
                            assert(a[i].response.matching_rules == b[i].response.matching_rules);
                            assert(a[i].response.generators == b[i].response.generators);
                            assert(a[i].response =~~= b[i].response);
                            assert(a[i] =~~= b[i]);
                            assert(a =~~= b);
                            assert(self@ =~~= spec_close(body_target));
                            match body@ {
                                ValueModel::Text(s) => {
                                    assert(self@ =~~= spec_close(
                                        spec_set_response_body(
                                            staged,
                                            BodyModel::Present(
                                                encode_utf8(s),
                                                spec_response_declared_ct(staged),
                                            ),
                                            Option::None,
                                            false,
                                        ),
                                    ));
                                },
                                _ => {
                                    assert(self@ =~~= spec_close(
                                        spec_set_response_body(
                                            staged,
                                            BodyModel::Present(
                                                json_bytes(to_canon(body@)->Ok_0),
                                                Option::Some(
                                                    spec_effective_ct(
                                                        spec_request_declared_ct(staged),
                                                    ),
                                                ),
                                            ),
                                            spec_inferred_ct(spec_request_declared_ct(staged)),
                                            true,
                                        ),
                                    ));
                                },
                            }
                        }
                        Ok(())
                    },
                    Err(BodyError::Conversion(e)) => {
                        self.state = BuilderState::Idle;
                        proof {
                            assert(self@ =~~= spec_close(staged));
                        }
                        Err(BuilderError::Conversion(e))
                    },
                    Err(BodyError::UnsupportedBodyType { actual }) => {
                        proof {
                            assert(false);
                        }
                        Err(BuilderError::UnsupportedBodyType { actual })
                    },
                }
            },
            _ => {
                self.state = BuilderState::Idle;
                proof {
                    assert(self@ =~~= spec_close(staged));
                }
                Err(BuilderError::UnsupportedBodyType { actual: body.shape_name() })
            },
        }
    }

    /// Populates the open interaction's request with a binary file body,
    /// opening an interaction if none is. The file's bytes arrive as the
    /// outcome of the host's read: a failed read becomes the file-read
    /// error and leaves the body untouched. On success a content-type rule
    /// is registered at the body root, and the octet-stream default header
    /// applies only when the caller set no Content-Type header.
    #[verifier::rlimit(60)]
    pub fn add_request_binary_file(
        &mut self,
        content_type: &str,
        file_path: &str,
        file: Result<Vec<u8>, String>,
        method: &str,
        path: &DynamicValue,
        query: &DynamicValue,
        headers: &DynamicValue,
    ) -> (r: Result<(), BuilderError>)
        requires
            old(self).wf(),
        ensures
            final(self).wf(),
            spec_binary_file_outcome(
                old(self)@,
                final(self)@,
                content_type@,
                file_path@,
                file,
                method@,
                path@,
                query@,
                headers@,
                r,
            ),
    {
        let staged_query: Option<Vec<(String, Vec<String>)>> = match query {
            DynamicValue::Mapping(entries) => {
                proof {
                    crate::value::lemma_value_model_entries(entries@);
                }
                Option::Some(build_plain_multimap(entries))
            },
            DynamicValue::Absent => Option::None,
            _ => {
                return Err(invalid_mapping_argument("query", query));
            },
        };
        let staged_headers: Option<Vec<(String, Vec<String>)>> = match headers {
            DynamicValue::Mapping(entries) => {
                proof {
                    crate::value::lemma_value_model_entries(entries@);
                }
                Option::Some(build_plain_multimap(entries))
            },
            DynamicValue::Absent => Option::None,
            _ => {
                return Err(invalid_mapping_argument("headers", headers));
            },
        };
        proof {
            match query@ {
                ValueModel::Mapping(es) => {
                    assert(staged_query is Some);
                    match &staged_query {
                        Option::Some(m) => {
                            assert(multimap_model(m@) == spec_plain_multimap(es));
                            assert(m@.len() == es.len());
                        },
                        Option::None => {
                            assert(false);
                        },
                    }
                },
                ValueModel::Absent => {
                    assert(staged_query is None);
                },
                _ => {
                    assert(false);
                },
            }
            match headers@ {
                ValueModel::Mapping(es) => {
                    assert(staged_headers is Some);
                    match &staged_headers {
                        Option::Some(m) => {
                            assert(multimap_model(m@) == spec_plain_multimap(es));
                            assert(m@.len() == es.len());
                        },
                        Option::None => {
                            assert(false);
                        },
                    }
                },
                ValueModel::Absent => {
                    assert(staged_headers is None);
                },
                _ => {
                    assert(false);
                },
            }
        }
        let idx = self.ensure_open();
        {
            let it = &mut self.pact.interactions[idx];
            it.request.method = String::from_str(method);
            match path {
                DynamicValue::Text(s) => {
                    it.request.path = s.clone();
                },
                _ => {},
            }
            match staged_query {
                Option::Some(m) => {
                    if m.len() > 0 {
                        it.request.query = Option::Some(m);
                    }
                },
                Option::None => {},
            }
            match staged_headers {
                Option::Some(m) => {
                    if m.len() > 0 {
                        it.request.headers = Option::Some(m);
                    }
                },
                Option::None => {},
            }
        }
        let ghost staged = spec_request_fields_step(old(self)@, method@, path@, query@, headers@);
        proof {
            assert(self@ =~~= staged);
        }
        match file {
            Err(cause) => Err(
                BuilderError::FileRead { path: String::from_str(file_path), cause },
            ),
            Ok(bytes) => {
                let ghost byte_view = bytes@;
                {
                    let it = &mut self.pact.interactions[idx];
                    it.request.body = OptionalBody::Present(bytes, Option::None);
                    it.request.matching_rules.add_rule(
                        String::from_str("body"),
                        String::from_str("$"),
                        MatchRule::ContentType(String::from_str(content_type)),
                        RuleLogic::RequireAll,
                    );
                }
                let key = String::from_str("Content-Type");
                let has_ct = crate::pact::opt_map_has_key(
                    &self.pact.interactions[idx].request.headers,
                    &key,
                );
                if !has_ct {
                    let mut row: Vec<String> = Vec::new();
                    row.push(String::from_str("application/octet-stream"));
                    proof {
                        assert(row@.map_values(|v: String| v@) =~= seq![
                            "application/octet-stream"@,
                        ]);
                    }
                    opt_map_set(&mut self.pact.interactions[idx].request.headers, key, row);
                }
                proof {
                    let target = spec_binary_body_step(staged, content_type@, byte_view);
                    let i = idx as int;
                    let a = self@.pact.interactions;
                    let b = target.pact.interactions;
                    assert(target.open == Option::Some(i));
                    assert(a.len() == b.len());
                    assert(forall|k: int| 0 <= k < a.len() && k != i ==> a[k] == b[k]);
                    assert(a[i].description == b[i].description);
                    assert(a[i].provider_states == b[i].provider_states);
                    assert(a[i].response == b[i].response);
                    assert(a[i].request.method == b[i].request.method);
                    assert(a[i].request.path == b[i].request.path);
                    assert(a[i].request.query == b[i].request.query);
                    assert(a[i].request.headers == b[i].request.headers);
                    assert(a[i].request.body == b[i].request.body);
                    assert(a[i].request.matching_rules == b[i].request.matching_rules);
                    assert(a[i].request.generators == b[i].request.generators);
                    assert(a[i].request =~~= b[i].request);
                    assert(a[i] =~~= b[i]);
                    assert(a =~~= b);
                    assert(self@ =~~= target);
                }
                Ok(())
            },
        }
    }

    /// An independent deep copy of the document as built so far: the
    /// snapshot a mock server is started from. A pure read; the cursor and
    /// the document are left exactly as they are.
    pub fn snapshot_pact(&self) -> (r: Pact)
        ensures
            r@ == self@.pact,
    {
        self.pact.snapshot()
    }

    /// Starts a mock server on a snapshot of the document in its current
    /// state, open interaction or not: a pure read of the builder. The
    /// registered instance holds its own copy of the document, so mutating
    /// this builder afterwards cannot change what the returned handle
    /// reports. The listener's bind happened outside this library and its
    /// outcome decides, as `MockServerRegistry::start` states.
    pub fn start_mock_server(
        &self,
        registry: &mut MockServerRegistry,
        bind_outcome: Result<u16, String>,
    ) -> (r: Result<MockServerHandle, StartError>)
        requires
            old(registry).wf(),
        ensures
            final(registry).wf(),
            bind_outcome matches Err(cause) ==> r matches Err(e) && e.cause@ == cause@
                && final(registry)@ == old(registry)@,
            match r {
                Ok(h) => {
                    &&& bind_outcome matches Ok(p) && h.port == p
                    &&& !old(registry)@.issued.contains(h.id@)
                    &&& final(registry)@.instances == old(registry)@.instances.push(
                        InstanceModel {
                            id: h.id@,
                            port: h.port,
                            pact: self@.pact,
                            mismatches: Seq::empty(),
                        },
                    )
                    &&& final(registry)@.issued == old(registry)@.issued.push(h.id@)
                },
                Err(_) => final(registry)@ == old(registry)@,
            },
    {
        registry.start(&self.pact, bind_outcome)
    }
}

} // verus!
