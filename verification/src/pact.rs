//! The pact document model: consumer, provider, metadata and an ordered
//! list of interactions, each one a request/response exchange with its
//! provider states, matching rules and generators.
//!
//! Matching-rule and generator descriptors are routed, not interpreted: the
//! external matching engine owns their semantics; this model only records
//! which descriptor was registered at which path of which category.

use vstd::prelude::*;

use crate::value::{json_model_entries, lemma_json_model_entries, JsonModel, JsonValue};

verus! {

// ---------------------------------------------------------------------------
// Matching rules and generators
// ---------------------------------------------------------------------------

/// How a rule combines with others at the same path.
#[derive(Clone, Copy, Debug, PartialEq, Eq, Structural)]
pub enum RuleLogic {
    RequireAll,
    RequireAny,
}

/// A matching-rule descriptor this core knows how to route.
#[derive(Debug, PartialEq, Eq)]
pub enum MatchRule {
    ContentType(String),
}

#[verifier::ext_equal]
pub enum MatchRuleModel {
    ContentType(Seq<char>),
}

impl View for MatchRule {
    type V = MatchRuleModel;

    open spec fn view(&self) -> MatchRuleModel {
        match self {
            MatchRule::ContentType(ct) => MatchRuleModel::ContentType(ct@),
        }
    }
}

impl MatchRule {
    pub fn duplicate(&self) -> (r: MatchRule)
        ensures
            r@ == self@,
    {
        match self {
            MatchRule::ContentType(ct) => MatchRule::ContentType(ct.clone()),
        }
    }
}

/// One rule, registered at a path expression.
#[derive(Debug, PartialEq, Eq)]
pub struct RuleEntry {
    pub path: String,
    pub rule: MatchRule,
    pub logic: RuleLogic,
}

#[verifier::ext_equal]
pub struct RuleEntryModel {
    pub path: Seq<char>,
    pub rule: MatchRuleModel,
    pub logic: RuleLogic,
}

impl View for RuleEntry {
    type V = RuleEntryModel;

    open spec fn view(&self) -> RuleEntryModel {
        RuleEntryModel { path: self.path@, rule: self.rule@, logic: self.logic }
    }
}

/// All rules of one category (for bodies, the category named "body").
#[derive(Debug, PartialEq, Eq)]
pub struct RuleCategory {
    pub name: String,
    pub rules: Vec<RuleEntry>,
}

#[verifier::ext_equal]
pub struct RuleCategoryModel {
    pub name: Seq<char>,
    pub rules: Seq<RuleEntryModel>,
}

impl View for RuleCategory {
    type V = RuleCategoryModel;

    open spec fn view(&self) -> RuleCategoryModel {
        RuleCategoryModel {
            name: self.name@,
            rules: self.rules@.map_values(|e: RuleEntry| e@),
        }
    }
}

/// The rule sets of one HTTP message, grouped by category name.
#[derive(Debug, PartialEq, Eq)]
pub struct RuleSet {
    pub categories: Vec<RuleCategory>,
}

impl View for RuleSet {
    type V = Seq<RuleCategoryModel>;

    open spec fn view(&self) -> Seq<RuleCategoryModel> {
        self.categories@.map_values(|c: RuleCategory| c@)
    }
}

/// One generator descriptor, registered at a path of a category. This core
/// never interprets descriptors; it only carries them.
#[derive(Debug, PartialEq, Eq)]
pub struct GeneratorEntry {
    pub category: String,
    pub path: String,
    pub descriptor: String,
}

#[verifier::ext_equal]
pub struct GeneratorEntryModel {
    pub category: Seq<char>,
    pub path: Seq<char>,
    pub descriptor: Seq<char>,
}

impl View for GeneratorEntry {
    type V = GeneratorEntryModel;

    open spec fn view(&self) -> GeneratorEntryModel {
        GeneratorEntryModel {
            category: self.category@,
            path: self.path@,
            descriptor: self.descriptor@,
        }
    }
}

/// The generators of one HTTP message.
#[derive(Debug, PartialEq, Eq)]
pub struct GeneratorSet {
    pub entries: Vec<GeneratorEntry>,
}

impl View for GeneratorSet {
    type V = Seq<GeneratorEntryModel>;

    open spec fn view(&self) -> Seq<GeneratorEntryModel> {
        self.entries@.map_values(|e: GeneratorEntry| e@)
    }
}

// ---------------------------------------------------------------------------
// Bodies
// ---------------------------------------------------------------------------

/// The body of an HTTP message: missing (never set), present but empty, or
/// present with its bytes and, where one is known, a content type.
#[derive(Debug, PartialEq, Eq)]
pub enum OptionalBody {
    Missing,
    Empty,
    Present(Vec<u8>, Option<String>),
}

#[verifier::ext_equal]
pub enum BodyModel {
    Missing,
    Empty,
    Present(Seq<u8>, Option<Seq<char>>),
}

pub open spec fn opt_text_model(o: Option<String>) -> Option<Seq<char>> {
    match o {
        Option::Some(s) => Option::Some(s@),
        Option::None => Option::None,
    }
}

impl View for OptionalBody {
    type V = BodyModel;

    open spec fn view(&self) -> BodyModel {
        match self {
            OptionalBody::Missing => BodyModel::Missing,
            OptionalBody::Empty => BodyModel::Empty,
            OptionalBody::Present(bytes, ct) => BodyModel::Present(bytes@, opt_text_model(*ct)),
        }
    }
}

impl OptionalBody {
    pub fn duplicate(&self) -> (r: OptionalBody)
        ensures
            r@ == self@,
    {
        match self {
            OptionalBody::Missing => OptionalBody::Missing,
            OptionalBody::Empty => OptionalBody::Empty,
            OptionalBody::Present(bytes, ct) => {
                let ct2: Option<String> = match ct {
                    Option::Some(s) => Option::Some(s.clone()),
                    Option::None => Option::None,
                };
                OptionalBody::Present(bytes.clone(), ct2)
            },
        }
    }
}

// ---------------------------------------------------------------------------
// Provider states
// ---------------------------------------------------------------------------

/// A named precondition the provider must satisfy before an interaction is
/// replayed, with its parameters as canonical JSON values.
#[derive(Debug, PartialEq, Eq)]
pub struct ProviderState {
    pub name: String,
    pub params: Vec<(String, JsonValue)>,
}

#[verifier::ext_equal]
pub struct ProviderStateModel {
    pub name: Seq<char>,
    pub params: Seq<(Seq<char>, JsonModel)>,
}

impl View for ProviderState {
    type V = ProviderStateModel;

    open spec fn view(&self) -> ProviderStateModel {
        ProviderStateModel { name: self.name@, params: json_model_entries(self.params@) }
    }
}

impl ProviderState {
    #[verifier::loop_isolation(false)]
    pub fn duplicate(&self) -> (r: ProviderState)
        ensures
            r@ == self@,
    {
        let mut params: Vec<(String, JsonValue)> = Vec::new();
        let mut i: usize = 0;
        proof {
            lemma_json_model_entries(self.params@);
        }
        while i < self.params.len()
            invariant
                i <= self.params.len(),
                params@.len() == i,
                json_model_entries(params@) =~= json_model_entries(self.params@).take(i as int),
            decreases self.params.len() - i,
        {
            let k = self.params[i].0.clone();
            let v = self.params[i].1.duplicate();
            proof {
                lemma_json_model_entries(params@);
                lemma_json_model_entries(params@.push((k, v)));
                assert(params@.push((k, v)).subrange(0, params@.len() as int) =~= params@);
                assert(json_model_entries(params@.push((k, v))) =~= json_model_entries(
                    self.params@,
                ).take(i as int + 1));
            }
            params.push((k, v));
            i = i + 1;
        }
        proof {
            assert(json_model_entries(self.params@).take(self.params@.len() as int)
                =~= json_model_entries(self.params@));
        }
        ProviderState { name: self.name.clone(), params }
    }
}

// ---------------------------------------------------------------------------
// Query and header maps
// ---------------------------------------------------------------------------

pub open spec fn multimap_model(v: Seq<(String, Vec<String>)>) -> Seq<(Seq<char>, Seq<Seq<char>>)> {
    v.map_values(|p: (String, Vec<String>)| (p.0@, p.1@.map_values(|s: String| s@)))
}

pub open spec fn opt_multimap_model(o: Option<Vec<(String, Vec<String>)>>) -> Option<
    Seq<(Seq<char>, Seq<Seq<char>>)>,
> {
    match o {
        Option::Some(v) => Option::Some(multimap_model(v@)),
        Option::None => Option::None,
    }
}

/// Copies a list of strings; the copy's elements equal the originals.
#[verifier::loop_isolation(false)]
pub fn copy_strings(v: &Vec<String>) -> (r: Vec<String>)
    ensures
        r@ == v@,
{
    let mut out: Vec<String> = Vec::new();
    let mut i: usize = 0;
    while i < v.len()
        invariant
            i <= v.len(),
            out@ =~= v@.take(i as int),
        decreases v.len() - i,
    {
        out.push(v[i].clone());
        proof {
            assert(out@ =~= v@.take(i as int + 1));
        }
        i = i + 1;
    }
    proof {
        assert(v@.take(v@.len() as int) =~= v@);
    }
    out
}

/// Copies a query or header map; the copy's model equals the original's.
#[verifier::loop_isolation(false)]
pub fn copy_multimap(v: &Vec<(String, Vec<String>)>) -> (r: Vec<(String, Vec<String>)>)
    ensures
        multimap_model(r@) == multimap_model(v@),
{
    let mut out: Vec<(String, Vec<String>)> = Vec::new();
    let mut i: usize = 0;
    while i < v.len()
        invariant
            i <= v.len(),
            out@.len() == i,
            multimap_model(out@) =~~= multimap_model(v@).take(i as int),
        decreases v.len() - i,
    {
        let k = v[i].0.clone();
        let vals = copy_strings(&v[i].1);
        out.push((k, vals));
        proof {
            assert(multimap_model(out@) =~~= multimap_model(v@).take(i as int + 1));
        }
        i = i + 1;
    }
    proof {
        assert(multimap_model(v@).take(v@.len() as int) =~= multimap_model(v@));
    }
    out
}

pub fn copy_opt_multimap(o: &Option<Vec<(String, Vec<String>)>>) -> (r: Option<
    Vec<(String, Vec<String>)>,
>)
    ensures
        opt_multimap_model(r) == opt_multimap_model(*o),
{
    match o {
        Option::Some(v) => Option::Some(copy_multimap(v)),
        Option::None => Option::None,
    }
}

/// The first index at which the map holds `key`, if any.
pub open spec fn spec_map_index(m: Seq<(Seq<char>, Seq<Seq<char>>)>, key: Seq<char>) -> int {
    choose_first_index(m, key, 0)
}

pub open spec fn choose_first_index(
    m: Seq<(Seq<char>, Seq<Seq<char>>)>,
    key: Seq<char>,
    from: int,
) -> int
    decreases m.len() - from when 0 <= from <= m.len()
{
    if from >= m.len() {
        -1
    } else if m[from].0 == key {
        from
    } else {
        choose_first_index(m, key, from + 1)
    }
}

pub open spec fn spec_map_has_key(m: Seq<(Seq<char>, Seq<Seq<char>>)>, key: Seq<char>) -> bool {
    spec_map_index(m, key) >= 0
}

pub proof fn lemma_first_index(m: Seq<(Seq<char>, Seq<Seq<char>>)>, key: Seq<char>, from: int)
    requires
        0 <= from <= m.len(),
    ensures
        choose_first_index(m, key, from) == -1 || from <= choose_first_index(m, key, from)
            < m.len(),
        choose_first_index(m, key, from) == -1 ==> forall|j: int|
            from <= j < m.len() ==> #[trigger] m[j].0 != key,
        choose_first_index(m, key, from) >= 0 ==> {
            &&& from <= choose_first_index(m, key, from) < m.len()
            &&& m[choose_first_index(m, key, from)].0 == key
            &&& forall|j: int|
                from <= j < choose_first_index(m, key, from) ==> #[trigger] m[j].0 != key
        },
    decreases m.len() - from,
{
    if from < m.len() && m[from].0 != key {
        lemma_first_index(m, key, from + 1);
    }
}


// ---------------------------------------------------------------------------
// Lookups and updates on optional maps
// ---------------------------------------------------------------------------

/// The value rows of `key`, by the first matching row of the map.
pub open spec fn spec_opt_map_lookup(
    o: Option<Seq<(Seq<char>, Seq<Seq<char>>)>>,
    key: Seq<char>,
) -> Option<Seq<Seq<char>>> {
    match o {
        Option::Some(m) => if spec_map_has_key(m, key) {
            Option::Some(m[spec_map_index(m, key)].1)
        } else {
            Option::None
        },
        Option::None => Option::None,
    }
}

/// The map after `key` is bound to `values`: the first row of `key` is
/// replaced, or a new row is appended, and an absent map becomes a map of
/// one row.
pub open spec fn spec_opt_map_set(
    o: Option<Seq<(Seq<char>, Seq<Seq<char>>)>>,
    key: Seq<char>,
    values: Seq<Seq<char>>,
) -> Seq<(Seq<char>, Seq<Seq<char>>)> {
    match o {
        Option::Some(m) => if spec_map_has_key(m, key) {
            m.update(spec_map_index(m, key), (key, values))
        } else {
            m.push((key, values))
        },
        Option::None => seq![(key, values)],
    }
}

/// The first value of the first row of `key`, if the map and the row and
/// the value are there.
pub open spec fn spec_opt_map_first_value(
    o: Option<Seq<(Seq<char>, Seq<Seq<char>>)>>,
    key: Seq<char>,
) -> Option<Seq<char>> {
    match spec_opt_map_lookup(o, key) {
        Option::Some(vals) => if vals.len() > 0 {
            Option::Some(vals[0])
        } else {
            Option::None
        },
        Option::None => Option::None,
    }
}

/// The first index of `key` in `m`, or the length of `m` if `key` is not
/// there.
#[verifier::loop_isolation(false)]
fn find_map_index(m: &Vec<(String, Vec<String>)>, key: &String) -> (r: usize)
    ensures
        r <= m@.len(),
        r < m@.len() ==> r as int == spec_map_index(multimap_model(m@), key@) && multimap_model(
            m@,
        )[r as int].0 == key@,
        r == m@.len() ==> spec_map_index(multimap_model(m@), key@) == -1 && !spec_map_has_key(
            multimap_model(m@),
            key@,
        ),
{
    let ghost model = multimap_model(m@);
    let mut i: usize = 0;
    while i < m.len()
        invariant
            i <= m.len(),
            forall|j: int| 0 <= j < i ==> #[trigger] model[j].0 != key@,
        decreases m.len() - i,
    {
        let hit = m[i].0 == *key;
        proof {
            assert(model[i as int] == (
                m@[i as int].0@,
                m@[i as int].1@.map_values(|v: String| v@),
            ));
        }
        if hit {
            proof {
                assert(model[i as int].0 == key@);
                lemma_first_index(model, key@, 0);
            }
            return i;
        }
        proof {
            assert(model[i as int].0 != key@);
        }
        i = i + 1;
    }
    proof {
        lemma_first_index(model, key@, 0);
        if choose_first_index(model, key@, 0) >= 0 {
            let w = choose_first_index(model, key@, 0);
            assert(model[w].0 == key@);
            assert(false);
        }
    }
    m.len()
}

/// Whether the optional map holds a row of `key`.
pub fn opt_map_has_key(o: &Option<Vec<(String, Vec<String>)>>, key: &String) -> (r: bool)
    ensures
        r == (spec_opt_map_lookup(opt_multimap_model(*o), key@) is Some),
{
    match o {
        Option::Some(m) => {
            let i = find_map_index(m, key);
            i < m.len()
        },
        Option::None => false,
    }
}

/// The first value of the first row of `key`, cloned.
pub fn opt_map_first_value(o: &Option<Vec<(String, Vec<String>)>>, key: &String) -> (r: Option<
    String,
>)
    ensures
        opt_text_model(r) == spec_opt_map_first_value(opt_multimap_model(*o), key@),
{
    match o {
        Option::Some(m) => {
            let i = find_map_index(m, key);
            if i < m.len() {
                if m[i].1.len() > 0 {
                    Option::Some(m[i].1[0].clone())
                } else {
                    Option::None
                }
            } else {
                Option::None
            }
        },
        Option::None => Option::None,
    }
}

/// Binds `key` to `values` in the optional map; see `spec_opt_map_set`.
pub fn opt_map_set(o: &mut Option<Vec<(String, Vec<String>)>>, key: String, values: Vec<String>)
    ensures
        opt_multimap_model(*final(o)) == Option::Some(
            spec_opt_map_set(opt_multimap_model(*old(o)), key@, values@.map_values(|s: String| s@)),
        ),
{
    let ghost old_model = opt_multimap_model(*old(o));
    match o {
        Option::Some(m) => {
            let ghost inner_old = multimap_model(m@);
            let i = find_map_index(m, &key);
            if i < m.len() {
                m.set(i, (key, values));
                proof {
                    assert(multimap_model(m@) =~~= spec_opt_map_set(
                        old_model,
                        key@,
                        values@.map_values(|s: String| s@),
                    ));
                }
            } else {
                m.push((key, values));
                proof {
                    assert(multimap_model(m@) =~~= spec_opt_map_set(
                        old_model,
                        key@,
                        values@.map_values(|s: String| s@),
                    ));
                }
            }
        },
        Option::None => {
            let mut m: Vec<(String, Vec<String>)> = Vec::new();
            m.push((key, values));
            proof {
                assert(multimap_model(m@) =~~= spec_opt_map_set(
                    old_model,
                    key@,
                    values@.map_values(|s: String| s@),
                ));
            }
            *o = Option::Some(m);
        },
    }
}

// ---------------------------------------------------------------------------
// HTTP messages
// ---------------------------------------------------------------------------

/// The request half of an interaction.
#[derive(Debug, PartialEq, Eq)]
pub struct Request {
    pub method: String,
    pub path: String,
    pub query: Option<Vec<(String, Vec<String>)>>,
    pub headers: Option<Vec<(String, Vec<String>)>>,
    pub body: OptionalBody,
    pub matching_rules: RuleSet,
    pub generators: GeneratorSet,
}

#[verifier::ext_equal]
pub struct RequestModel {
    pub method: Seq<char>,
    pub path: Seq<char>,
    pub query: Option<Seq<(Seq<char>, Seq<Seq<char>>)>>,
    pub headers: Option<Seq<(Seq<char>, Seq<Seq<char>>)>>,
    pub body: BodyModel,
    pub matching_rules: Seq<RuleCategoryModel>,
    pub generators: Seq<GeneratorEntryModel>,
}

impl View for Request {
    type V = RequestModel;

    open spec fn view(&self) -> RequestModel {
        RequestModel {
            method: self.method@,
            path: self.path@,
            query: opt_multimap_model(self.query),
            headers: opt_multimap_model(self.headers),
            body: self.body@,
            matching_rules: self.matching_rules@,
            generators: self.generators@,
        }
    }
}

/// The response half of an interaction.
#[derive(Debug, PartialEq, Eq)]
pub struct Response {
    pub status: u16,
    pub headers: Option<Vec<(String, Vec<String>)>>,
    pub body: OptionalBody,
    pub matching_rules: RuleSet,
    pub generators: GeneratorSet,
}

#[verifier::ext_equal]
pub struct ResponseModel {
    pub status: u16,
    pub headers: Option<Seq<(Seq<char>, Seq<Seq<char>>)>>,
    pub body: BodyModel,
    pub matching_rules: Seq<RuleCategoryModel>,
    pub generators: Seq<GeneratorEntryModel>,
}

impl View for Response {
    type V = ResponseModel;

    open spec fn view(&self) -> ResponseModel {
        ResponseModel {
            status: self.status,
            headers: opt_multimap_model(self.headers),
            body: self.body@,
            matching_rules: self.matching_rules@,
            generators: self.generators@,
        }
    }
}

pub open spec fn default_request_model() -> RequestModel {
    RequestModel {
        method: "GET"@,
        path: "/"@,
        query: Option::None,
        headers: Option::None,
        body: BodyModel::Missing,
        matching_rules: Seq::empty(),
        generators: Seq::empty(),
    }
}

pub open spec fn default_response_model() -> ResponseModel {
    ResponseModel {
        status: 200,
        headers: Option::None,
        body: BodyModel::Missing,
        matching_rules: Seq::empty(),
        generators: Seq::empty(),
    }
}

impl Default for Request {
    /// A fresh request: method GET, the root path, nothing else set.
    fn default() -> (r: Request)
        ensures
            r@ == default_request_model(),
    {
        let r = Request {
            method: String::from_str("GET"),
            path: String::from_str("/"),
            query: Option::None,
            headers: Option::None,
            body: OptionalBody::Missing,
            matching_rules: RuleSet { categories: Vec::new() },
            generators: GeneratorSet { entries: Vec::new() },
        };
        proof {
            assert(r@ =~~= default_request_model());
        }
        r
    }
}

impl Default for Response {
    /// A fresh response: status 200, nothing else set.
    fn default() -> (r: Response)
        ensures
            r@ == default_response_model(),
    {
        let r = Response {
            status: 200,
            headers: Option::None,
            body: OptionalBody::Missing,
            matching_rules: RuleSet { categories: Vec::new() },
            generators: GeneratorSet { entries: Vec::new() },
        };
        proof {
            assert(r@ =~~= default_response_model());
        }
        r
    }
}

impl Request {
    /// The content type this request declares, from its Content-Type
    /// header.
    pub fn declared_content_type(&self) -> (r: Option<String>)
        ensures
            opt_text_model(r) == spec_opt_map_first_value(self@.headers, "Content-Type"@),
    {
        let key = String::from_str("Content-Type");
        opt_map_first_value(&self.headers, &key)
    }
}

impl Response {
    /// The content type this response declares, from its Content-Type
    /// header.
    pub fn declared_content_type(&self) -> (r: Option<String>)
        ensures
            opt_text_model(r) == spec_opt_map_first_value(self@.headers, "Content-Type"@),
    {
        let key = String::from_str("Content-Type");
        opt_map_first_value(&self.headers, &key)
    }
}

// ---------------------------------------------------------------------------
// Rule-set operations
// ---------------------------------------------------------------------------

/// The first index at which a category named `name` stands, or -1.
pub open spec fn spec_category_index(m: Seq<RuleCategoryModel>, name: Seq<char>) -> int {
    choose_category_index(m, name, 0)
}

pub open spec fn choose_category_index(m: Seq<RuleCategoryModel>, name: Seq<char>, from: int) -> int
    decreases m.len() - from when 0 <= from <= m.len()
{
    if from >= m.len() {
        -1
    } else if m[from].name == name {
        from
    } else {
        choose_category_index(m, name, from + 1)
    }
}

pub proof fn lemma_category_index(m: Seq<RuleCategoryModel>, name: Seq<char>, from: int)
    requires
        0 <= from <= m.len(),
    ensures
        choose_category_index(m, name, from) == -1 || from <= choose_category_index(m, name, from)
            < m.len(),
        choose_category_index(m, name, from) == -1 ==> forall|j: int|
            from <= j < m.len() ==> #[trigger] m[j].name != name,
        choose_category_index(m, name, from) >= 0 ==> {
            &&& from <= choose_category_index(m, name, from) < m.len()
            &&& m[choose_category_index(m, name, from)].name == name
            &&& forall|j: int|
                from <= j < choose_category_index(m, name, from) ==> #[trigger] m[j].name != name
        },
    decreases m.len() - from,
{
    if from < m.len() && m[from].name != name {
        lemma_category_index(m, name, from + 1);
    }
}

/// The rule set after the category `name` is made sure to exist: unchanged
/// where it already stands, with an empty category of that name appended
/// where it does not.
pub open spec fn spec_ensure_category(m: Seq<RuleCategoryModel>, name: Seq<char>) -> Seq<
    RuleCategoryModel,
> {
    if spec_category_index(m, name) >= 0 {
        m
    } else {
        m.push(RuleCategoryModel { name: name, rules: Seq::empty() })
    }
}

/// The rule set after `rule` is registered at `path` in the category
/// `name`; the category is made sure to exist first.
pub open spec fn spec_add_rule(
    m: Seq<RuleCategoryModel>,
    name: Seq<char>,
    entry: RuleEntryModel,
) -> Seq<RuleCategoryModel> {
    let ensured = spec_ensure_category(m, name);
    let i = spec_category_index(ensured, name);
    ensured.update(
        i,
        RuleCategoryModel { name: ensured[i].name, rules: ensured[i].rules.push(entry) },
    )
}

impl RuleSet {
    /// The first index of the category `name`, or the number of categories
    /// if no category has that name.
    #[verifier::loop_isolation(false)]
    fn find_category(&self, name: &String) -> (r: usize)
        ensures
            r <= self@.len(),
            r < self@.len() ==> r as int == spec_category_index(self@, name@) && self@[
                r as int
            ].name == name@,
            r == self@.len() ==> spec_category_index(self@, name@) == -1 && forall|j: int|
                0 <= j < self@.len() ==> #[trigger] self@[j].name != name@,
    {
        let ghost model = self@;
        let mut i: usize = 0;
        while i < self.categories.len()
            invariant
                i <= self.categories.len(),
                forall|j: int| 0 <= j < i ==> #[trigger] model[j].name != name@,
            decreases self.categories.len() - i,
        {
            let hit = self.categories[i].name == *name;
            proof {
                assert(model[i as int] == self.categories@[i as int]@);
            }
            if hit {
                proof {
                    assert(model[i as int].name == name@);
                    lemma_category_index(model, name@, 0);
                }
                return i;
            }
            proof {
                assert(model[i as int].name != name@);
            }
            i = i + 1;
        }
        proof {
            lemma_category_index(model, name@, 0);
            if choose_category_index(model, name@, 0) >= 0 {
                let w = choose_category_index(model, name@, 0);
                assert(model[w].name == name@);
                assert(false);
            }
        }
        self.categories.len()
    }

    /// Makes sure the category `name` exists and returns its index.
    pub fn ensure_category(&mut self, name: String) -> (r: usize)
        ensures
            final(self)@ == spec_ensure_category(old(self)@, name@),
            0 <= r < final(self)@.len(),
            final(self)@[r as int].name == name@,
            r as int == spec_category_index(final(self)@, name@),
    {
        let ghost old_model = self@;
        let ghost name_view = name@;
        let i = self.find_category(&name);
        if i < self.categories.len() {
            i
        } else {
            let fresh = RuleCategory { name, rules: Vec::new() };
            self.categories.push(fresh);
            proof {
                assert(self@ =~~= old_model.push(
                    RuleCategoryModel { name: name_view, rules: Seq::empty() },
                ));
                lemma_category_index(self@, name_view, 0);
                let w = choose_category_index(self@, name_view, 0);
                assert(self@[old_model.len() as int].name == name_view);
                if w == -1 {
                    assert(false);
                } else if w < old_model.len() {
                    assert(self@[w].name == old_model[w].name);
                    assert(false);
                }
            }
            self.categories.len() - 1
        }
    }

    /// Registers `rule` at `path` in the category `name`.
    pub fn add_rule(&mut self, name: String, path: String, rule: MatchRule, logic: RuleLogic)
        ensures
            final(self)@ == spec_add_rule(
                old(self)@,
                name@,
                RuleEntryModel { path: path@, rule: rule@, logic },
            ),
    {
        let ghost old_model = self@;
        let ghost entry_model = RuleEntryModel { path: path@, rule: rule@, logic };
        let ghost name_view = name@;
        let i = self.ensure_category(name);
        let entry = RuleEntry { path, rule, logic };
        let category = &mut self.categories[i];
        category.rules.push(entry);
        proof {
            assert(self@ =~~= spec_add_rule(old_model, name_view, entry_model));
        }
    }
}


// ---------------------------------------------------------------------------
// Interactions and the pact document
// ---------------------------------------------------------------------------

/// One request/response exchange plus its preconditions and description.
#[derive(Debug, PartialEq, Eq)]
pub struct Interaction {
    pub description: String,
    pub provider_states: Vec<ProviderState>,
    pub request: Request,
    pub response: Response,
}

#[verifier::ext_equal]
pub struct InteractionModel {
    pub description: Seq<char>,
    pub provider_states: Seq<ProviderStateModel>,
    pub request: RequestModel,
    pub response: ResponseModel,
}

impl View for Interaction {
    type V = InteractionModel;

    open spec fn view(&self) -> InteractionModel {
        InteractionModel {
            description: self.description@,
            provider_states: self.provider_states@.map_values(|p: ProviderState| p@),
            request: self.request@,
            response: self.response@,
        }
    }
}

pub open spec fn default_interaction_model() -> InteractionModel {
    InteractionModel {
        description: Seq::empty(),
        provider_states: Seq::empty(),
        request: default_request_model(),
        response: default_response_model(),
    }
}

impl Default for Interaction {
    /// A fresh interaction: empty description, no provider states, default
    /// request and response.
    fn default() -> (r: Interaction)
        ensures
            r@ == default_interaction_model(),
    {
        let r = Interaction {
            description: String::new(),
            provider_states: Vec::new(),
            request: Request::default(),
            response: Response::default(),
        };
        proof {
            assert(r@ =~~= default_interaction_model());
        }
        r
    }
}

pub open spec fn metadata_model(v: Seq<(String, Vec<(String, String)>)>) -> Seq<
    (Seq<char>, Seq<(Seq<char>, Seq<char>)>),
> {
    v.map_values(
        |p: (String, Vec<(String, String)>)|
            (p.0@, p.1@.map_values(|q: (String, String)| (q.0@, q.1@))),
    )
}

/// An assembled contract document: one consumer, one provider, metadata,
/// and the ordered interactions.
#[derive(Debug, PartialEq, Eq)]
pub struct Pact {
    pub consumer: String,
    pub provider: String,
    pub metadata: Vec<(String, Vec<(String, String)>)>,
    pub interactions: Vec<Interaction>,
}

#[verifier::ext_equal]
pub struct PactModel {
    pub consumer: Seq<char>,
    pub provider: Seq<char>,
    pub metadata: Seq<(Seq<char>, Seq<(Seq<char>, Seq<char>)>)>,
    pub interactions: Seq<InteractionModel>,
}

impl View for Pact {
    type V = PactModel;

    open spec fn view(&self) -> PactModel {
        PactModel {
            consumer: self.consumer@,
            provider: self.provider@,
            metadata: metadata_model(self.metadata@),
            interactions: self.interactions@.map_values(|i: Interaction| i@),
        }
    }
}

/// The metadata a fresh pact carries: the pact-specification version and
/// this library's version, as the host names it.
pub open spec fn initial_metadata_model(version: Seq<char>) -> Seq<
    (Seq<char>, Seq<(Seq<char>, Seq<char>)>),
> {
    seq![
        ("pactSpecification"@, seq![("version"@, "3.0.0"@)]),
        ("pactCore"@, seq![("version"@, version)]),
    ]
}

impl Pact {
    /// A fresh pact for one consumer/provider pair, with no interactions.
    pub fn new(consumer_name: &str, provider_name: &str, version: &str) -> (r: Pact)
        ensures
            r@.consumer == consumer_name@,
            r@.provider == provider_name@,
            r@.metadata == initial_metadata_model(version@),
            r@.interactions == Seq::<InteractionModel>::empty(),
    {
        let mut spec_row: Vec<(String, String)> = Vec::new();
        spec_row.push((String::from_str("version"), String::from_str("3.0.0")));
        let mut core_row: Vec<(String, String)> = Vec::new();
        core_row.push((String::from_str("version"), String::from_str(version)));
        let mut metadata: Vec<(String, Vec<(String, String)>)> = Vec::new();
        metadata.push((String::from_str("pactSpecification"), spec_row));
        metadata.push((String::from_str("pactCore"), core_row));
        let r = Pact {
            consumer: String::from_str(consumer_name),
            provider: String::from_str(provider_name),
            metadata,
            interactions: Vec::new(),
        };
        proof {
            assert(metadata_model(r.metadata@) =~~= initial_metadata_model(version@));
            assert(r@.interactions =~= Seq::<InteractionModel>::empty());
        }
        r
    }
}

// ---------------------------------------------------------------------------
// Deep snapshots
// ---------------------------------------------------------------------------

impl RuleEntry {
    pub fn duplicate(&self) -> (r: RuleEntry)
        ensures
            r@ == self@,
    {
        RuleEntry { path: self.path.clone(), rule: self.rule.duplicate(), logic: self.logic }
    }
}

impl RuleCategory {
    #[verifier::loop_isolation(false)]
    pub fn duplicate(&self) -> (r: RuleCategory)
        ensures
            r@ == self@,
    {
        let mut rules: Vec<RuleEntry> = Vec::new();
        let mut i: usize = 0;
        while i < self.rules.len()
            invariant
                i <= self.rules.len(),
                rules@.len() == i,
                rules@.map_values(|e: RuleEntry| e@) =~= self.rules@.map_values(
                    |e: RuleEntry| e@,
                ).take(i as int),
            decreases self.rules.len() - i,
        {
            rules.push(self.rules[i].duplicate());
            proof {
                assert(rules@.map_values(|e: RuleEntry| e@) =~= self.rules@.map_values(
                    |e: RuleEntry| e@,
                ).take(i as int + 1));
            }
            i = i + 1;
        }
        let r = RuleCategory { name: self.name.clone(), rules };
        proof {
            assert(self.rules@.map_values(|e: RuleEntry| e@).take(self.rules@.len() as int)
                =~= self.rules@.map_values(|e: RuleEntry| e@));
            assert(r@ =~~= self@);
        }
        r
    }
}

impl RuleSet {
    #[verifier::loop_isolation(false)]
    pub fn duplicate(&self) -> (r: RuleSet)
        ensures
            r@ == self@,
    {
        let mut categories: Vec<RuleCategory> = Vec::new();
        let mut i: usize = 0;
        while i < self.categories.len()
            invariant
                i <= self.categories.len(),
                categories@.len() == i,
                categories@.map_values(|c: RuleCategory| c@) =~= self@.take(i as int),
            decreases self.categories.len() - i,
        {
            categories.push(self.categories[i].duplicate());
            proof {
                assert(categories@.map_values(|c: RuleCategory| c@) =~= self@.take(i as int + 1));
            }
            i = i + 1;
        }
        let r = RuleSet { categories };
        proof {
            assert(self@.take(self.categories@.len() as int) =~= self@);
            assert(r@ =~~= self@);
        }
        r
    }
}

impl GeneratorSet {
    #[verifier::loop_isolation(false)]
    pub fn duplicate(&self) -> (r: GeneratorSet)
        ensures
            r@ == self@,
    {
        let mut entries: Vec<GeneratorEntry> = Vec::new();
        let mut i: usize = 0;
        while i < self.entries.len()
            invariant
                i <= self.entries.len(),
                entries@.len() == i,
                entries@.map_values(|e: GeneratorEntry| e@) =~= self@.take(i as int),
            decreases self.entries.len() - i,
        {
            let e = &self.entries[i];
            entries.push(
                GeneratorEntry {
                    category: e.category.clone(),
                    path: e.path.clone(),
                    descriptor: e.descriptor.clone(),
                },
            );
            proof {
                assert(entries@.map_values(|e: GeneratorEntry| e@) =~= self@.take(i as int + 1));
            }
            i = i + 1;
        }
        let r = GeneratorSet { entries };
        proof {
            assert(self@.take(self.entries@.len() as int) =~= self@);
            assert(r@ =~~= self@);
        }
        r
    }
}

impl Request {
    pub fn snapshot(&self) -> (r: Request)
        ensures
            r@ == self@,
    {
        let r = Request {
            method: self.method.clone(),
            path: self.path.clone(),
            query: copy_opt_multimap(&self.query),
            headers: copy_opt_multimap(&self.headers),
            body: self.body.duplicate(),
            matching_rules: self.matching_rules.duplicate(),
            generators: self.generators.duplicate(),
        };
        proof {
            assert(r@ =~~= self@);
        }
        r
    }
}

impl Response {
    pub fn snapshot(&self) -> (r: Response)
        ensures
            r@ == self@,
    {
        let r = Response {
            status: self.status,
            headers: copy_opt_multimap(&self.headers),
            body: self.body.duplicate(),
            matching_rules: self.matching_rules.duplicate(),
            generators: self.generators.duplicate(),
        };
        proof {
            assert(r@ =~~= self@);
        }
        r
    }
}

impl Interaction {
    #[verifier::loop_isolation(false)]
    pub fn snapshot(&self) -> (r: Interaction)
        ensures
            r@ == self@,
    {
        let mut provider_states: Vec<ProviderState> = Vec::new();
        let mut i: usize = 0;
        while i < self.provider_states.len()
            invariant
                i <= self.provider_states.len(),
                provider_states@.len() == i,
                provider_states@.map_values(|p: ProviderState| p@)
                    =~= self.provider_states@.map_values(|p: ProviderState| p@).take(i as int),
            decreases self.provider_states.len() - i,
        {
            provider_states.push(self.provider_states[i].duplicate());
            proof {
                assert(provider_states@.map_values(|p: ProviderState| p@)
                    =~= self.provider_states@.map_values(|p: ProviderState| p@).take(i as int + 1));
            }
            i = i + 1;
        }
        let r = Interaction {
            description: self.description.clone(),
            provider_states,
            request: self.request.snapshot(),
            response: self.response.snapshot(),
        };
        proof {
            assert(self.provider_states@.map_values(|p: ProviderState| p@).take(
                self.provider_states@.len() as int,
            ) =~= self.provider_states@.map_values(|p: ProviderState| p@));
            assert(r@ =~~= self@);
        }
        r
    }
}

/// Copies a list of string pairs; the copy's elements equal the originals.
#[verifier::loop_isolation(false)]
pub fn copy_string_pairs(v: &Vec<(String, String)>) -> (r: Vec<(String, String)>)
    ensures
        r@ == v@,
{
    let mut out: Vec<(String, String)> = Vec::new();
    let mut i: usize = 0;
    while i < v.len()
        invariant
            i <= v.len(),
            out@ =~= v@.take(i as int),
        decreases v.len() - i,
    {
        out.push((v[i].0.clone(), v[i].1.clone()));
        proof {
            assert(out@ =~= v@.take(i as int + 1));
        }
        i = i + 1;
    }
    proof {
        assert(v@.take(v@.len() as int) =~= v@);
    }
    out
}

/// Copies pact metadata; the copy's model equals the original's.
#[verifier::loop_isolation(false)]
pub fn copy_metadata(v: &Vec<(String, Vec<(String, String)>)>) -> (r: Vec<
    (String, Vec<(String, String)>),
>)
    ensures
        metadata_model(r@) == metadata_model(v@),
{
    let mut out: Vec<(String, Vec<(String, String)>)> = Vec::new();
    let mut i: usize = 0;
    while i < v.len()
        invariant
            i <= v.len(),
            out@.len() == i,
            metadata_model(out@) =~~= metadata_model(v@).take(i as int),
        decreases v.len() - i,
    {
        out.push((v[i].0.clone(), copy_string_pairs(&v[i].1)));
        proof {
            assert(metadata_model(out@) =~~= metadata_model(v@).take(i as int + 1));
        }
        i = i + 1;
    }
    proof {
        assert(metadata_model(v@).take(v@.len() as int) =~= metadata_model(v@));
    }
    out
}

impl Pact {
    /// A deep copy of the whole document: the snapshot a mock server is
    /// started from. Its model provably equals this pact's model, and the
    /// two share no storage, so mutating one never shows in the other.
    #[verifier::loop_isolation(false)]
    pub fn snapshot(&self) -> (r: Pact)
        ensures
            r@ == self@,
    {
        let mut interactions: Vec<Interaction> = Vec::new();
        let mut i: usize = 0;
        while i < self.interactions.len()
            invariant
                i <= self.interactions.len(),
                interactions@.len() == i,
                interactions@.map_values(|x: Interaction| x@) =~= self.interactions@.map_values(
                    |x: Interaction| x@,
                ).take(i as int),
            decreases self.interactions.len() - i,
        {
            interactions.push(self.interactions[i].snapshot());
            proof {
                assert(interactions@.map_values(|x: Interaction| x@)
                    =~= self.interactions@.map_values(|x: Interaction| x@).take(i as int + 1));
            }
            i = i + 1;
        }
        let r = Pact {
            consumer: self.consumer.clone(),
            provider: self.provider.clone(),
            metadata: copy_metadata(&self.metadata),
            interactions,
        };
        proof {
            assert(self.interactions@.map_values(|x: Interaction| x@).take(
                self.interactions@.len() as int,
            ) =~= self.interactions@.map_values(|x: Interaction| x@));
            assert(r@ =~~= self@);
        }
        r
    }
}

} // verus!
