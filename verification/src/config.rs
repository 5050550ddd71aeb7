//! The verification-configuration assembler: a provider name, a base URL
//! and a loose options bag in; a typed verification request out, or a
//! configuration error when the base URL does not parse.
//!
//! Source strings are classified by shape: one that carries a URI scheme
//! prefix — word characters followed by "://" — is a URL source, any other
//! is a file-path source. Advanced filtering, broker discovery and
//! publish options are not wired through in this version: the assembled
//! request carries no filter and an empty consumer set.

use vstd::prelude::*;

use crate::pact::{opt_text_model, ProviderState};
use crate::value::{JsonValue, DynamicValue, ValueModel};

verus! {

// ---------------------------------------------------------------------------
// Parsed URLs
// ---------------------------------------------------------------------------

/// The components of an absolute URL that a provider descriptor takes
/// verbatim.
#[derive(Debug, PartialEq, Eq)]
pub struct ParsedUrl {
    pub scheme: String,
    pub host: Option<String>,
    pub port: Option<u16>,
    pub path: String,
}

#[verifier::ext_equal]
pub struct ParsedUrlModel {
    pub scheme: Seq<char>,
    pub host: Option<Seq<char>>,
    pub port: Option<u16>,
    pub path: Seq<char>,
}

impl View for ParsedUrl {
    type V = ParsedUrlModel;

    open spec fn view(&self) -> ParsedUrlModel {
        ParsedUrlModel {
            scheme: self.scheme@,
            host: opt_text_model(self.host),
            port: self.port,
            path: self.path@,
        }
    }
}

/// What url::Url::parse makes of a string: a function of the string alone.
/// Absent means the string does not parse as an absolute URL.
pub uninterp spec fn spec_parse_url(s: Seq<char>) -> Option<ParsedUrlModel>;

/// Relies on url::Url::parse and the accessors scheme, host_str, port and
/// path: parsing depends on the input string alone, and on success the
/// four components are extracted verbatim. The error text is the parse
/// error's own message.
#[verifier::external_body]
fn parse_absolute_url(s: &str) -> (r: Result<ParsedUrl, String>)
    ensures
        r is Ok <==> spec_parse_url(s@) is Some,
        r matches Ok(u) ==> spec_parse_url(s@) == Option::Some(u@),
{
    match url::Url::parse(s) {
        Ok(u) => Ok(
            ParsedUrl {
                scheme: u.scheme().to_string(),
                host: u.host_str().map(|h| h.to_string()),
                port: u.port(),
                path: u.path().to_string(),
            },
        ),
        Err(e) => Err(e.to_string()),
    }
}

// ---------------------------------------------------------------------------
// Source classification
// ---------------------------------------------------------------------------

/// A pact source: a URL to fetch from (authentication is not wired in
/// this version and stays absent), or a path on disk.
#[derive(Debug, PartialEq, Eq)]
pub enum PactSource {
    Url(String, Option<String>),
    File(String),
}

#[verifier::ext_equal]
pub enum PactSourceModel {
    Url(Seq<char>, Option<Seq<char>>),
    File(Seq<char>),
}

impl View for PactSource {
    type V = PactSourceModel;

    open spec fn view(&self) -> PactSourceModel {
        match self {
            PactSource::Url(loc, auth) => PactSourceModel::Url(loc@, opt_text_model(*auth)),
            PactSource::File(p) => PactSourceModel::File(p@),
        }
    }
}

/// A word character, as the scheme pattern counts them: an ASCII letter,
/// an ASCII digit, or the underscore.
pub open spec fn spec_is_word_char(c: char) -> bool {
    let n = c as u32;
    (97 <= n <= 122) || (65 <= n <= 90) || (48 <= n <= 57) || n == 95
}

/// Whether a source string carries a URI scheme prefix: at least one word
/// character, then "://".
pub open spec fn spec_url_like(s: Seq<char>) -> bool {
    exists|i: int|
        1 <= i && i + 3 <= s.len() && #[trigger] s[i] == ':' && s[i + 1] == '/' && s[i + 2] == '/'
            && (forall|j: int| 0 <= j < i ==> spec_is_word_char(#[trigger] s[j]))
}

fn is_word_char(c: char) -> (r: bool)
    ensures
        r == spec_is_word_char(c),
{
    let n = c as u32;
    (97 <= n && n <= 122) || (65 <= n && n <= 90) || (48 <= n && n <= 57) || n == 95
}

/// Decides the scheme-prefix shape of a source string.
#[verifier::loop_isolation(false)]
pub fn is_url_source(s: &str) -> (r: bool)
    ensures
        r == spec_url_like(s@),
{
    let len = s.unicode_len();
    let mut k: usize = 0;
    while k < len && is_word_char(s.get_char(k))
        invariant
            k <= len,
            forall|j: int| 0 <= j < k ==> spec_is_word_char(#[trigger] s@[j]),
        decreases len - k,
    {
        k = k + 1;
    }
    if k >= 1 && len - k >= 3 && s.get_char(k) == ':' && s.get_char(k + 1) == '/' && s.get_char(
        k + 2,
    ) == '/' {
        proof {
            assert(s@[k as int] == ':' && s@[k as int + 1] == '/' && s@[k as int + 2] == '/');
        }
        true
    } else {
        proof {
            if spec_url_like(s@) {
                let i = choose|i: int|
                    1 <= i && i + 3 <= s@.len() && #[trigger] s@[i] == ':' && s@[i + 1] == '/'
                        && s@[i + 2] == '/' && (forall|j: int|
                        0 <= j < i ==> spec_is_word_char(#[trigger] s@[j]));
                if i < k {
                    assert(spec_is_word_char(s@[i]));
                    assert(false);
                } else if i > k {
                    if k < len {
                        assert(spec_is_word_char(s@[k as int]));
                        assert(false);
                    } else {
                        assert(false);
                    }
                } else {
                    assert(false);
                }
            }
        }
        false
    }
}

/// Classifies one source string: a URL source when it carries a scheme
/// prefix, a file source otherwise. The assembler attaches no
/// authentication.
pub fn classify_source(source: &str) -> (r: PactSource)
    ensures
        spec_url_like(source@) ==> r@ == PactSourceModel::Url(source@, Option::None),
        !spec_url_like(source@) ==> r@ == PactSourceModel::File(source@),
{
    if is_url_source(source) {
        PactSource::Url(String::from_str(source), Option::None)
    } else {
        PactSource::File(String::from_str(source))
    }
}

// ---------------------------------------------------------------------------
// The assembled request
// ---------------------------------------------------------------------------

/// The provider under verification, its coordinates taken verbatim from
/// the parsed base URL.
#[derive(Debug, PartialEq, Eq)]
pub struct ProviderDescriptor {
    pub name: String,
    pub protocol: String,
    pub host: String,
    pub port: Option<u16>,
    pub path: String,
}

/// The request filter of a verification run. No filtering is wired through
/// in this version.
#[derive(Debug, PartialEq, Eq)]
pub enum FilterSpec {
    NoFilter,
}

/// Options of a verification run; this version assembles the defaults.
#[derive(Debug, PartialEq, Eq)]
pub struct VerificationOptions {
    pub publish: bool,
    pub provider_version: Option<String>,
    pub build_url: Option<String>,
    pub disable_ssl_verification: bool,
    pub callback_timeout_ms: u64,
}

impl Default for VerificationOptions {
    /// The default options: nothing published, no version or build URL,
    /// SSL verification on, a five-second callback timeout.
    fn default() -> (r: VerificationOptions)
        ensures
            !r.publish,
            r.provider_version is None,
            r.build_url is None,
            !r.disable_ssl_verification,
            r.callback_timeout_ms == 5000,
    {
        VerificationOptions {
            publish: false,
            provider_version: Option::None,
            build_url: Option::None,
            disable_ssl_verification: false,
            callback_timeout_ms: 5000,
        }
    }
}

/// Everything the external verification engine needs for one run.
#[derive(Debug, PartialEq, Eq)]
pub struct VerificationRequest {
    pub provider: ProviderDescriptor,
    pub sources: Vec<PactSource>,
    pub filter: FilterSpec,
    pub consumers: Vec<String>,
    pub options: VerificationOptions,
}

/// Why assembling failed.
#[derive(Debug, PartialEq, Eq)]
pub enum ConfigError {
    /// The base URL does not parse as an absolute URL; the cause is the
    /// parser's message.
    InvalidBaseUrl { cause: String },
}

// ---------------------------------------------------------------------------
// Sources from the options bag
// ---------------------------------------------------------------------------

/// The first value bound to `key` in a mapping-shaped bag; absent for any
/// other bag shape.
pub open spec fn spec_bag_lookup(bag: ValueModel, key: Seq<char>) -> Option<ValueModel> {
    match bag {
        ValueModel::Mapping(entries) => spec_entries_lookup(entries, key),
        _ => Option::None,
    }
}

pub open spec fn spec_entries_lookup(entries: Seq<(Seq<char>, ValueModel)>, key: Seq<char>) -> Option<
    ValueModel,
>
    decreases entries,
{
    if entries.len() == 0 {
        Option::None
    } else if entries[0].0 == key {
        Option::Some(entries[0].1)
    } else {
        spec_entries_lookup(entries.subrange(1, entries.len() as int), key)
    }
}

/// The classified sources of a source list: string entries in their order,
/// each classified by its shape; entries of any other shape are skipped.
pub open spec fn spec_classified_sources(items: Seq<ValueModel>) -> Seq<PactSourceModel>
    decreases items,
{
    if items.len() == 0 {
        Seq::empty()
    } else {
        let rest = spec_classified_sources(items.subrange(1, items.len() as int));
        match items[0] {
            ValueModel::Text(s) => seq![spec_classify(s)] + rest,
            _ => rest,
        }
    }
}

pub open spec fn spec_classify(s: Seq<char>) -> PactSourceModel {
    if spec_url_like(s) {
        PactSourceModel::Url(s, Option::None)
    } else {
        PactSourceModel::File(s)
    }
}

/// How many entries of a source list are skipped for not being strings.
pub open spec fn spec_skipped_sources(items: Seq<ValueModel>) -> int
    decreases items,
{
    if items.len() == 0 {
        0
    } else {
        let rest = spec_skipped_sources(items.subrange(1, items.len() as int));
        match items[0] {
            ValueModel::Text(_) => rest,
            _ => 1 + rest,
        }
    }
}

pub proof fn lemma_sources_step(items: Seq<ValueModel>, i: int)
    requires
        0 <= i < items.len(),
    ensures
        spec_classified_sources(items.take(i + 1)) == spec_classified_sources(items.take(i)) + (
        match items[i] {
            ValueModel::Text(s) => seq![spec_classify(s)],
            _ => Seq::<PactSourceModel>::empty(),
        }),
        spec_skipped_sources(items.take(i + 1)) == spec_skipped_sources(items.take(i)) + (
        match items[i] {
            ValueModel::Text(_) => 0int,
            _ => 1int,
        }),
    decreases items,
{
    if i == 0 {
        assert(items.take(0) =~= Seq::<ValueModel>::empty());
        assert(items.take(1) =~= seq![items[0]]);
        assert(items.take(1).subrange(1, 1) =~= Seq::<ValueModel>::empty());
        assert(spec_classified_sources(items.take(1).subrange(1, 1)) =~= Seq::<
            PactSourceModel,
        >::empty());
        match items[0] {
            ValueModel::Text(s) => {
                assert(spec_classified_sources(items.take(1)) =~= seq![spec_classify(s)]);
                assert(spec_classified_sources(items.take(0)) + seq![spec_classify(s)]
                    =~= seq![spec_classify(s)]);
            },
            _ => {
                assert(spec_classified_sources(items.take(1)) =~= Seq::<PactSourceModel>::empty());
            },
        }
    } else {
        let rest = items.subrange(1, items.len() as int);
        lemma_sources_step(rest, i - 1);
        assert(items.take(i)[0] == items[0]);
        assert(items.take(i + 1)[0] == items[0]);
        assert(items.take(i).subrange(1, i) =~= rest.take(i - 1));
        assert(items.take(i + 1).subrange(1, i + 1) =~= rest.take(i));
        assert(rest[i - 1] == items[i]);
        match items[0] {
            ValueModel::Text(s0) => {
                match items[i] {
                    ValueModel::Text(s) => {
                        assert(seq![spec_classify(s0)] + (spec_classified_sources(rest.take(i - 1))
                            + seq![spec_classify(s)]) =~= (seq![spec_classify(s0)]
                            + spec_classified_sources(rest.take(i - 1))) + seq![spec_classify(s)]);
                    },
                    _ => {
                        assert(seq![spec_classify(s0)] + spec_classified_sources(rest.take(i - 1))
                            + Seq::<PactSourceModel>::empty() =~= seq![spec_classify(s0)]
                            + spec_classified_sources(rest.take(i - 1)));
                    },
                }
            },
            _ => {},
        }
    }
}

// ---------------------------------------------------------------------------
// The assembler
// ---------------------------------------------------------------------------

pub open spec fn sources_model(v: Seq<PactSource>) -> Seq<PactSourceModel> {
    v.map_values(|s: PactSource| s@)
}

/// What the assembled request promises over the parsed URL and the bag.
pub open spec fn spec_assembled(
    req: VerificationRequest,
    warnings: Seq<String>,
    provider_name: Seq<char>,
    u: ParsedUrlModel,
    bag: ValueModel,
) -> bool {
    &&& req.provider.name@ == provider_name
    &&& req.provider.protocol@ == u.scheme
    &&& req.provider.host@ == (match u.host {
        Option::Some(h) => h,
        Option::None => "localhost"@,
    })
    &&& req.provider.port == u.port
    &&& req.provider.path@ == u.path
    &&& req.filter is NoFilter
    &&& req.consumers@.len() == 0
    &&& !req.options.publish
    &&& req.options.provider_version is None
    &&& req.options.build_url is None
    &&& !req.options.disable_ssl_verification
    &&& req.options.callback_timeout_ms == 5000
    &&& match spec_bag_lookup(bag, "sources"@) {
        Option::Some(ValueModel::Sequence(items)) => sources_model(req.sources@)
            == spec_classified_sources(items) && warnings.len() == spec_skipped_sources(items),
        Option::Some(_) => req.sources@.len() == 0 && warnings.len() == 1,
        Option::None => req.sources@.len() == 0 && warnings.len() == 0,
    }
}

/// Looks `key` up in a mapping-shaped options bag.
#[verifier::loop_isolation(false)]
fn bag_lookup<'a>(bag: &'a DynamicValue, key: &String) -> (r: Option<&'a DynamicValue>)
    ensures
        match r {
            Option::Some(v) => spec_bag_lookup(bag@, key@) == Option::Some(v@),
            Option::None => spec_bag_lookup(bag@, key@) is None,
        },
{
    match bag {
        DynamicValue::Mapping(entries) => {
            proof {
                crate::value::lemma_value_model_entries(entries@);
            }
            let ghost model = crate::value::value_model_entries(entries@);
            proof {
                assert(model.subrange(0, model.len() as int) =~= model);
            }
            let mut i: usize = 0;
            while i < entries.len()
                invariant
                    i <= entries.len(),
                    spec_entries_lookup(model, key@) == spec_entries_lookup(
                        model.subrange(i as int, model.len() as int),
                        key@,
                    ),
                decreases entries.len() - i,
            {
                let hit = entries[i].0 == *key;
                proof {
                    let tail = model.subrange(i as int, model.len() as int);
                    assert(tail[0] == model[i as int]);
                    assert(model[i as int] == (entries@[i as int].0@, crate::value::value_model(
                        entries@[i as int].1,
                    )));
                    assert(tail.subrange(1, tail.len() as int) =~= model.subrange(
                        i as int + 1,
                        model.len() as int,
                    ));
                }
                if hit {
                    proof {
                        assert(model[i as int].0 == key@);
                    }
                    return Option::Some(&entries[i].1);
                }
                proof {
                    assert(model[i as int].0 != key@);
                }
                i = i + 1;
            }
            proof {
                assert(model.subrange(model.len() as int, model.len() as int) =~= Seq::<
                    (Seq<char>, ValueModel),
                >::empty());
            }
            Option::None
        },
        _ => Option::None,
    }
}

/// Assembles a verification request. The base URL must parse as an
/// absolute URL; otherwise nothing is assembled and the invalid-URL error
/// carries the parser's cause. The provider descriptor takes the URL's
/// components verbatim, with an absent host defaulting to localhost. The
/// bag's "sources" entry, where it is a sequence, yields the classified
/// sources; each non-string entry is skipped with a warning; a
/// sources entry of any other shape yields no sources and one warning, and
/// an absent entry yields no sources and no warning.
#[verifier::loop_isolation(false)]
pub fn setup_provider_config(
    provider_name: &str,
    base_url: &str,
    options: &DynamicValue,
) -> (r: Result<(VerificationRequest, Vec<String>), ConfigError>)
    ensures
        match r {
            Ok((req, warnings)) => spec_parse_url(base_url@) matches Option::Some(u)
                && spec_assembled(req, warnings@, provider_name@, u, options@),
            Err(ConfigError::InvalidBaseUrl { .. }) => spec_parse_url(base_url@) is None,
        },
{
    let parsed = match parse_absolute_url(base_url) {
        Ok(u) => u,
        Err(cause) => {
            return Err(ConfigError::InvalidBaseUrl { cause });
        },
    };
    let host = match parsed.host {
        Option::Some(h) => h,
        Option::None => String::from_str("localhost"),
    };
    let provider = ProviderDescriptor {
        name: String::from_str(provider_name),
        protocol: parsed.scheme,
        host,
        port: parsed.port,
        path: parsed.path,
    };
    let mut sources: Vec<PactSource> = Vec::new();
    let mut warnings: Vec<String> = Vec::new();
    let sources_key = String::from_str("sources");
    match bag_lookup(options, &sources_key) {
        Option::Some(DynamicValue::Sequence(items)) => {
            proof {
                crate::value::lemma_value_model_seq(items@);
            }
            let ghost model = crate::value::value_model_seq(items@);
            let mut i: usize = 0;
            while i < items.len()
                invariant
                    i <= items.len(),
                    sources_model(sources@) =~~= spec_classified_sources(model.take(i as int)),
                    warnings@.len() == spec_skipped_sources(model.take(i as int)),
                decreases items.len() - i,
            {
                proof {
                    lemma_sources_step(model, i as int);
                }
                match &items[i] {
                    DynamicValue::Text(s) => {
                        sources.push(classify_source(s.as_str()));
                        proof {
                            assert(sources_model(sources@) =~~= spec_classified_sources(
                                model.take(i as int + 1),
                            ));
                        }
                    },
                    _ => {
                        warnings.push(
                            String::from_str("sources entry is not a string and was skipped"),
                        );
                    },
                }
                i = i + 1;
            }
            proof {
                assert(model.take(items@.len() as int) =~= model);
            }
        },
        Option::Some(_) => {
            warnings.push(String::from_str("sources is not a list and was ignored"));
        },
        Option::None => {},
    }
    let request = VerificationRequest {
        provider,
        sources,
        filter: FilterSpec::NoFilter,
        consumers: Vec::new(),
        options: VerificationOptions::default(),
    };
    Ok((request, warnings))
}

// ---------------------------------------------------------------------------
// Date-time generation
// ---------------------------------------------------------------------------

/// Whether a date-time format string parses as a pattern; a property of
/// the format alone, owned by the external generator.
pub uninterp spec fn spec_datetime_format_ok(format: Seq<char>) -> bool;

/// Relies on pact_models::time_utils::generate_string: it succeeds exactly
/// when the format parses as a date-time pattern, which depends on the
/// format alone; the generated text reads the system clock, so nothing is
/// assumed about it.
#[verifier::external_body]
pub fn generate_datetime_string(format: &str) -> (r: Result<String, String>)
    ensures
        r is Ok <==> spec_datetime_format_ok(format@),
{
    pact_models::time_utils::generate_string(format)
}

// ---------------------------------------------------------------------------
// The default provider-state collaborator
// ---------------------------------------------------------------------------

/// An error a provider-state callback reports; opaque to this library.
#[derive(Debug, PartialEq, Eq)]
pub struct ProviderStateError {
    pub message: String,
}

/// The default provider-state collaborator, used when the host wires no
/// callback in: it acknowledges every state with an empty result mapping
/// and never fails.
#[derive(Debug, PartialEq, Eq)]
pub struct NoopProviderStateExecutor {}

impl NoopProviderStateExecutor {
    pub fn new() -> (r: NoopProviderStateExecutor)
    {
        NoopProviderStateExecutor {  }
    }

    /// Acknowledges one provider-state callback.
    pub fn call(
        &self,
        _interaction_id: &Option<String>,
        _state: &ProviderState,
        _is_setup: bool,
    ) -> (r: Result<Vec<(String, JsonValue)>, ProviderStateError>)
        ensures
            r matches Ok(m) && m@.len() == 0,
    {
        Ok(Vec::new())
    }
}

} // verus!
