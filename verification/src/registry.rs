//! The registry of running mock-server instances: a constructible service
//! that maps a fresh identifier to one instance holding the port, the pact
//! snapshot the server replays, and the mismatches observed so far.
//!
//! The registry owns its instances; callers hold handles that refer to an
//! instance by identifier only. Every lookup treats an unknown identifier
//! as a reportable condition, never as a silent no-op. Identifiers are
//! never reused: an identifier stays issued after its instance shuts down.
//! Binding and serving the actual listener is the mock-server engine's
//! work and happens outside this library; the registry receives the bind's
//! outcome and records the instance only when the bind succeeded.

use vstd::prelude::*;

use crate::json_text::{lemma_dec_digits_ascii, push_dec_digits, spec_dec_digits};
use crate::pact::{opt_text_model, Pact, PactModel};
use crate::value::{from_canon, from_canonical, JsonModel, JsonValue};
use crate::value::{json_model_seq, lemma_json_model_seq, DynamicValue, ValueModel};


verus! {

// ---------------------------------------------------------------------------
// Instances and the registry
// ---------------------------------------------------------------------------

/// One running mock server: its identifier, its bound port, the pact
/// snapshot it replays, and the mismatch records observed against it.
#[derive(Debug, PartialEq, Eq)]
pub struct MockServerInstance {
    pub id: String,
    pub port: u16,
    pub pact: Pact,
    pub mismatches: Vec<JsonValue>,
}

#[verifier::ext_equal]
pub struct InstanceModel {
    pub id: Seq<char>,
    pub port: u16,
    pub pact: PactModel,
    pub mismatches: Seq<JsonModel>,
}

impl View for MockServerInstance {
    type V = InstanceModel;

    open spec fn view(&self) -> InstanceModel {
        InstanceModel {
            id: self.id@,
            port: self.port,
            pact: self.pact@,
            mismatches: json_model_seq(self.mismatches@),
        }
    }
}

/// The registry itself. `issued` records every identifier ever handed out,
/// shut-down ones included.
pub struct MockServerRegistry {
    instances: Vec<MockServerInstance>,
    issued: Vec<String>,
}

#[verifier::ext_equal]
pub struct RegistryModel {
    pub instances: Seq<InstanceModel>,
    pub issued: Seq<Seq<char>>,
}

impl View for MockServerRegistry {
    type V = RegistryModel;

    closed spec fn view(&self) -> RegistryModel {
        RegistryModel {
            instances: self.instances@.map_values(|i: MockServerInstance| i@),
            issued: self.issued@.map_values(|s: String| s@),
        }
    }
}

/// The registry invariant: instance identifiers are pairwise distinct, and
/// every present identifier was issued.
pub open spec fn registry_wf(m: RegistryModel) -> bool {
    &&& forall|i: int, j: int|
        0 <= i < j < m.instances.len() ==> #[trigger] m.instances[i].id != #[trigger] m.instances[
            j
        ].id
    &&& forall|i: int|
        0 <= i < m.instances.len() ==> m.issued.contains(#[trigger] m.instances[i].id)
}

impl MockServerRegistry {
    pub open spec fn wf(&self) -> bool {
        registry_wf(self@)
    }
}

// ---------------------------------------------------------------------------
// Lookup
// ---------------------------------------------------------------------------

/// The first index of the instance with `id`, or -1.
pub open spec fn spec_instance_index(m: Seq<InstanceModel>, id: Seq<char>) -> int {
    choose_instance_index(m, id, 0)
}

pub open spec fn choose_instance_index(m: Seq<InstanceModel>, id: Seq<char>, from: int) -> int
    decreases m.len() - from when 0 <= from <= m.len()
{
    if from >= m.len() {
        -1
    } else if m[from].id == id {
        from
    } else {
        choose_instance_index(m, id, from + 1)
    }
}

pub open spec fn spec_has_instance(m: RegistryModel, id: Seq<char>) -> bool {
    spec_instance_index(m.instances, id) >= 0
}

pub proof fn lemma_instance_index(m: Seq<InstanceModel>, id: Seq<char>, from: int)
    requires
        0 <= from <= m.len(),
    ensures
        choose_instance_index(m, id, from) == -1 || from <= choose_instance_index(m, id, from)
            < m.len(),
        choose_instance_index(m, id, from) == -1 ==> forall|j: int|
            from <= j < m.len() ==> #[trigger] m[j].id != id,
        choose_instance_index(m, id, from) >= 0 ==> {
            &&& m[choose_instance_index(m, id, from)].id == id
            &&& forall|j: int|
                from <= j < choose_instance_index(m, id, from) ==> #[trigger] m[j].id != id
        },
    decreases m.len() - from,
{
    if from < m.len() && m[from].id != id {
        lemma_instance_index(m, id, from + 1);
    }
}

// ---------------------------------------------------------------------------
// Errors and handles
// ---------------------------------------------------------------------------

/// Starting a mock server failed; nothing was registered.
#[derive(Debug, PartialEq, Eq)]
pub struct StartError {
    pub cause: String,
}

/// An operation named a mock server the registry does not hold.
#[derive(Debug, PartialEq, Eq)]
pub enum RegistryError {
    NotFound { id: String },
}

/// A caller's reference to a running instance: the identifier and the
/// bound port, never ownership.
#[derive(Debug, PartialEq, Eq)]
pub struct MockServerHandle {
    pub id: String,
    pub port: u16,
}

/// The base URL of a mock server on the loopback address.
pub open spec fn spec_handle_url(port: u16) -> Seq<char> {
    "http://127.0.0.1:"@ + spec_dec_digits(port as nat).map_values(|b: u8| b as char)
}

impl MockServerHandle {
    pub fn get_id(&self) -> (r: String)
        ensures
            r@ == self.id@,
    {
        self.id.clone()
    }

    pub fn get_port(&self) -> (r: u16)
        ensures
            r == self.port,
    {
        self.port
    }

    /// The URL the server under test is reached at.
    pub fn get_url(&self) -> (r: String)
        ensures
            r@ == spec_handle_url(self.port),
    {
        let mut digits: Vec<u8> = Vec::new();
        push_dec_digits(self.port as u64, &mut digits);
        proof {
            lemma_dec_digits_ascii(self.port as nat);
        }
        let digit_text = crate::json_text::ascii_bytes_to_string(digits);
        let mut url = String::from_str("http://127.0.0.1:");
        url.append(digit_text.as_str());
        url
    }
}

// ---------------------------------------------------------------------------
// Transitions
// ---------------------------------------------------------------------------

/// Shutting down: the instance of `id` is removed and `true` comes back;
/// with no such instance the registry is unchanged and `false` comes back.
/// The identifier stays issued either way.
pub open spec fn spec_shutdown(m: RegistryModel, id: Seq<char>) -> (RegistryModel, bool) {
    let i = spec_instance_index(m.instances, id);
    if i >= 0 {
        (RegistryModel { instances: m.instances.remove(i), issued: m.issued }, true)
    } else {
        (m, false)
    }
}

/// Idempotent shutdown: the first shutdown of `id` reports exactly whether
/// the instance was there; afterwards the instance cannot be found, and a
/// second shutdown reports `false` and changes nothing.
pub proof fn lemma_shutdown_idempotent(m: RegistryModel, id: Seq<char>)
    requires
        registry_wf(m),
    ensures
        registry_wf(spec_shutdown(m, id).0),
        spec_shutdown(m, id).1 == spec_has_instance(m, id),
        !spec_has_instance(spec_shutdown(m, id).0, id),
        !spec_shutdown(spec_shutdown(m, id).0, id).1,
        spec_shutdown(spec_shutdown(m, id).0, id).0 == spec_shutdown(m, id).0,
{
    lemma_instance_index(m.instances, id, 0);
    let i = spec_instance_index(m.instances, id);
    if i >= 0 {
        let removed = m.instances.remove(i);
        assert forall|j: int| 0 <= j < removed.len() implies #[trigger] removed[j].id != id by {
            if j < i {
                assert(removed[j] == m.instances[j]);
            } else {
                assert(removed[j] == m.instances[j + 1]);
            }
        }
        lemma_instance_index(removed, id, 0);
        if choose_instance_index(removed, id, 0) >= 0 {
            assert(false);
        }
        assert forall|a: int, b: int| 0 <= a < b < removed.len() implies #[trigger] removed[a].id
            != #[trigger] removed[b].id by {
            let a0: int = if a < i {
                a
            } else {
                a + 1
            };
            let b0: int = if b < i {
                b
            } else {
                b + 1
            };
            assert(removed[a] == m.instances[a0]);
            assert(removed[b] == m.instances[b0]);
        }
        assert forall|a: int| 0 <= a < removed.len() implies m.issued.contains(
            #[trigger] removed[a].id,
        ) by {
            if a < i {
                assert(removed[a] == m.instances[a]);
            } else {
                assert(removed[a] == m.instances[a + 1]);
            }
        }
    }
}

// ---------------------------------------------------------------------------
// Identifier generation
// ---------------------------------------------------------------------------

/// Relies on uuid::Uuid::new_v4 and its Display form: a random version-4
/// UUID written in the hyphenated format, which is 36 ASCII characters.
/// The value is random; nothing more is assumed of it.
#[verifier::external_body]
fn fresh_instance_id() -> (r: String)
    ensures
        r@.len() == 36,
{
    uuid::Uuid::new_v4().to_string()
}

// ---------------------------------------------------------------------------
// Operations
// ---------------------------------------------------------------------------

impl MockServerRegistry {
    /// An empty registry. Tests and hosts may run any number of
    /// independent registries.
    pub fn new() -> (r: MockServerRegistry)
        ensures
            r.wf(),
            r@.instances == Seq::<InstanceModel>::empty(),
            r@.issued == Seq::<Seq<char>>::empty(),
    {
        let r = MockServerRegistry { instances: Vec::new(), issued: Vec::new() };
        proof {
            assert(r@.instances =~= Seq::<InstanceModel>::empty());
            assert(r@.issued =~= Seq::<Seq<char>>::empty());
        }
        r
    }

    /// The first index of the instance with `id`, or the instance count.
    #[verifier::loop_isolation(false)]
    fn find_instance(&self, id: &String) -> (r: usize)
        ensures
            r <= self@.instances.len(),
            r < self@.instances.len() ==> r as int == spec_instance_index(self@.instances, id@)
                && self@.instances[r as int].id == id@,
            r == self@.instances.len() ==> spec_instance_index(self@.instances, id@) == -1,
    {
        let ghost model = self@.instances;
        let mut i: usize = 0;
        while i < self.instances.len()
            invariant
                i <= self.instances.len(),
                forall|j: int| 0 <= j < i ==> #[trigger] model[j].id != id@,
            decreases self.instances.len() - i,
        {
            let hit = self.instances[i].id == *id;
            proof {
                assert(model[i as int] == self.instances@[i as int]@);
            }
            if hit {
                proof {
                    assert(model[i as int].id == id@);
                    lemma_instance_index(model, id@, 0);
                }
                return i;
            }
            proof {
                assert(model[i as int].id != id@);
            }
            i = i + 1;
        }
        proof {
            lemma_instance_index(model, id@, 0);
            if choose_instance_index(model, id@, 0) >= 0 {
                let w = choose_instance_index(model, id@, 0);
                assert(model[w].id == id@);
                assert(false);
            }
        }
        self.instances.len()
    }

    /// Whether `id` was ever issued.
    #[verifier::loop_isolation(false)]
    fn issued_contains(&self, id: &String) -> (r: bool)
        ensures
            r == self@.issued.contains(id@),
    {
        let ghost model = self@.issued;
        let mut i: usize = 0;
        while i < self.issued.len()
            invariant
                i <= self.issued.len(),
                forall|j: int| 0 <= j < i ==> #[trigger] model[j] != id@,
            decreases self.issued.len() - i,
        {
            let hit = self.issued[i] == *id;
            proof {
                assert(model[i as int] == self.issued@[i as int]@);
            }
            if hit {
                proof {
                    assert(model[i as int] == id@);
                }
                return true;
            }
            i = i + 1;
        }
        proof {
            if model.contains(id@) {
                let w = choose|w: int| 0 <= w < model.len() && model[w] == id@;
                assert(model[w] == id@);
                assert(false);
            }
        }
        false
    }

    /// Whether the registry currently holds an instance with `id`.
    pub fn has_instance(&self, id: &String) -> (r: bool)
        ensures
            r == spec_has_instance(self@, id@),
    {
        let i = self.find_instance(id);
        proof {
            lemma_instance_index(self@.instances, id@, 0);
        }
        i < self.instances.len()
    }

    /// Records an instance under a given identifier, against a snapshot of
    /// the pact. Registration succeeds exactly when the identifier was
    /// never issued before; on success the handle refers to the new
    /// instance, which starts with no recorded mismatches.
    pub fn register(&mut self, id: String, port: u16, pact: &Pact) -> (r: Result<
        MockServerHandle,
        StartError,
    >)
        requires
            old(self).wf(),
        ensures
            final(self).wf(),
            match r {
                Ok(h) => {
                    &&& !old(self)@.issued.contains(id@)
                    &&& h.id@ == id@
                    &&& h.port == port
                    &&& final(self)@.instances == old(self)@.instances.push(
                        InstanceModel { id: id@, port, pact: pact@, mismatches: Seq::empty() },
                    )
                    &&& final(self)@.issued == old(self)@.issued.push(id@)
                },
                Err(_) => old(self)@.issued.contains(id@) && final(self)@ == old(self)@,
            },
    {
        if self.issued_contains(&id) {
            return Err(
                StartError { cause: String::from_str("mock server identifier already issued") },
            );
        }
        let ghost old_model = self@;
        let handle = MockServerHandle { id: id.clone(), port };
        let instance = MockServerInstance {
            id,
            port,
            pact: pact.snapshot(),
            mismatches: Vec::new(),
        };
        let ghost instance_model = instance@;
        let ghost id_view = instance.id@;
        self.issued.push(instance.id.clone());
        self.instances.push(instance);
        proof {
            assert(json_model_seq(Seq::<JsonValue>::empty()) =~= Seq::<JsonModel>::empty());
            assert(self@.instances =~~= old_model.instances.push(
                InstanceModel { id: id_view, port, pact: pact@, mismatches: Seq::empty() },
            ));
            assert(self@.issued =~~= old_model.issued.push(id_view));
            assert forall|a: int| 0 <= a < self@.instances.len() implies self@.issued.contains(
                #[trigger] self@.instances[a].id,
            ) by {
                if a < old_model.instances.len() {
                    assert(old_model.issued.contains(old_model.instances[a].id));
                    let w = choose|w: int|
                        0 <= w < old_model.issued.len() && old_model.issued[w]
                            == old_model.instances[a].id;
                    assert(self@.issued[w] == self@.instances[a].id);
                } else {
                    assert(self@.issued[old_model.issued.len() as int] == id_view);
                }
            }
            assert forall|a: int, b: int|
                0 <= a < b < self@.instances.len() implies #[trigger] self@.instances[a].id
                != #[trigger] self@.instances[b].id by {
                if b == old_model.instances.len() {
                    assert(old_model.issued.contains(old_model.instances[a].id));
                    assert(!old_model.issued.contains(id_view));
                }
            }
        }
        Ok(handle)
    }

    /// Starts a mock server from a pact snapshot: the listener was bound
    /// outside this library, and its outcome decides. A failed bind is
    /// reported as the start error with the bind's own cause and registers
    /// nothing; on a successful bind the instance is recorded under a
    /// fresh identifier. The one failure a successful bind can still meet
    /// is an identifier collision, which registers nothing.
    pub fn start(&mut self, pact: &Pact, bind_outcome: Result<u16, String>) -> (r: Result<
        MockServerHandle,
        StartError,
    >)
        requires
            old(self).wf(),
        ensures
            final(self).wf(),
            bind_outcome matches Err(cause) ==> r matches Err(e) && e.cause@ == cause@
                && final(self)@ == old(self)@,
            match r {
                Ok(h) => {
                    &&& bind_outcome matches Ok(p) && h.port == p
                    &&& !old(self)@.issued.contains(h.id@)
                    &&& final(self)@.instances == old(self)@.instances.push(
                        InstanceModel {
                            id: h.id@,
                            port: h.port,
                            pact: pact@,
                            mismatches: Seq::empty(),
                        },
                    )
                    &&& final(self)@.issued == old(self)@.issued.push(h.id@)
                },
                Err(_) => final(self)@ == old(self)@,
            },
    {
        match bind_outcome {
            Err(cause) => Err(StartError { cause }),
            Ok(port) => {
                let id = fresh_instance_id();
                self.register(id, port, pact)
            },
        }
    }

    /// Stops and removes the instance of `id`; reports whether one was
    /// found. Shutting down twice reports `true` then `false`; see
    /// `lemma_shutdown_idempotent`.
    pub fn shutdown(&mut self, id: &String) -> (found: bool)
        requires
            old(self).wf(),
        ensures
            final(self).wf(),
            final(self)@ == spec_shutdown(old(self)@, id@).0,
            found == spec_shutdown(old(self)@, id@).1,
    {
        let ghost old_model = self@;
        let i = self.find_instance(id);
        if i < self.instances.len() {
            self.instances.remove(i);
            proof {
                assert(self@.instances =~~= old_model.instances.remove(i as int));
                lemma_shutdown_idempotent(old_model, id@);
            }
            true
        } else {
            false
        }
    }

    /// The mismatch report of the instance of `id`: absent when the server
    /// saw no mismatches, else the records as dynamic values for the host.
    /// An unknown identifier is reported, not ignored.
    #[verifier::loop_isolation(false)]
    pub fn get_test_result(&self, id: &String) -> (r: Result<
        Option<Vec<DynamicValue>>,
        RegistryError,
    >)
        ensures
            match r {
                Err(RegistryError::NotFound { id: rid }) => !spec_has_instance(self@, id@)
                    && rid@ == id@,
                Ok(report) => {
                    &&& spec_has_instance(self@, id@)
                    &&& {
                        let inst = self@.instances[spec_instance_index(self@.instances, id@)];
                        match report {
                            Option::None => inst.mismatches.len() == 0,
                            Option::Some(vs) => {
                                &&& inst.mismatches.len() > 0
                                &&& vs@.len() == inst.mismatches.len()
                                &&& forall|k: int|
                                    0 <= k < vs@.len() ==> (#[trigger] vs@[k])@ == from_canon(
                                        inst.mismatches[k],
                                    )
                            },
                        }
                    }
                },
            },
    {
        let i = self.find_instance(id);
        if i < self.instances.len() {
            proof {
                lemma_instance_index(self@.instances, id@, 0);
            }
            let records = &self.instances[i].mismatches;
            if records.len() == 0 {
                proof {
                    lemma_json_model_seq(records@);
                }
                Ok(Option::None)
            } else {
                proof {
                    lemma_json_model_seq(records@);
                }
                let mut out: Vec<DynamicValue> = Vec::new();
                let mut k: usize = 0;
                while k < records.len()
                    invariant
                        k <= records.len(),
                        out@.len() == k,
                        forall|j: int|
                            0 <= j < k ==> (#[trigger] out@[j])@ == from_canon(
                                json_model_seq(records@)[j],
                            ),
                    decreases records.len() - k,
                {
                    out.push(from_canonical(&records[k]));
                    k = k + 1;
                }
                Ok(Option::Some(out))
            }
        } else {
            Err(RegistryError::NotFound { id: id.clone() })
        }
    }

    /// Appends one observed mismatch record to the instance of `id`;
    /// reports whether the instance was found.
    pub fn record_mismatch(&mut self, id: &String, record: JsonValue) -> (found: bool)
        requires
            old(self).wf(),
        ensures
            final(self).wf(),
            found == spec_has_instance(old(self)@, id@),
            final(self)@.issued == old(self)@.issued,
            found ==> {
                let i = spec_instance_index(old(self)@.instances, id@);
                let inst = old(self)@.instances[i];
                final(self)@.instances == old(self)@.instances.update(
                    i,
                    InstanceModel { mismatches: inst.mismatches.push(record@), ..inst },
                )
            },
            !found ==> final(self)@ == old(self)@,
    {
        let ghost old_model = self@;
        let i = self.find_instance(id);
        if i < self.instances.len() {
            proof {
                lemma_instance_index(old_model.instances, id@, 0);
                lemma_json_model_seq(self.instances@[i as int].mismatches@);
            }
            let ghost record_model = record@;
            let inst = &mut self.instances[i];
            proof {
                lemma_json_model_seq(inst.mismatches@.push(record));
                assert(inst.mismatches@.push(record).subrange(0, inst.mismatches@.len() as int)
                    =~= inst.mismatches@);
            }
            inst.mismatches.push(record);
            proof {
                let target = old_model.instances.update(
                    i as int,
                    InstanceModel {
                        mismatches: old_model.instances[i as int].mismatches.push(record_model),
                        ..old_model.instances[i as int]
                    },
                );
                assert(json_model_seq(self.instances@[i as int].mismatches@) =~= old_model.instances[
                    i as int
                ].mismatches.push(record_model));
                assert(self@.instances =~~= target);
                assert forall|a: int, b: int|
                    0 <= a < b < self@.instances.len() implies #[trigger] self@.instances[a].id
                    != #[trigger] self@.instances[b].id by {
                    assert(self@.instances[a].id == old_model.instances[a].id);
                    assert(self@.instances[b].id == old_model.instances[b].id);
                }
                assert forall|a: int| 0 <= a < self@.instances.len() implies self@.issued.contains(
                    #[trigger] self@.instances[a].id,
                ) by {
                    assert(self@.instances[a].id == old_model.instances[a].id);
                    assert(old_model.issued.contains(old_model.instances[a].id));
                    assert(self@.issued =~= old_model.issued);
                }
            }
            true
        } else {
            false
        }
    }

    /// The number of instances currently registered.
    pub fn instance_count(&self) -> (r: usize)
        ensures
            r == self@.instances.len(),
    {
        self.instances.len()
    }
}

// ---------------------------------------------------------------------------
// Writing the pact to disk: the plan
// ---------------------------------------------------------------------------

/// What the host needs to write an instance's pact to disk. The
/// serialization and the write belong to the external engine and the host.
#[derive(Debug, PartialEq, Eq)]
pub struct WritePlan {
    pub pact: Pact,
    pub directory: Option<String>,
    pub overwrite: bool,
}

/// The directory argument as the host hands it over: a non-empty string
/// names the directory, anything else means the process default.
pub open spec fn spec_write_directory(d: ValueModel) -> Option<Seq<char>> {
    match d {
        ValueModel::Text(s) => if s.len() > 0 {
            Option::Some(s)
        } else {
            Option::None
        },
        _ => Option::None,
    }
}

/// The overwrite argument as the host hands it over: only a true boolean
/// turns overwriting on.
pub open spec fn spec_write_overwrite(o: ValueModel) -> bool {
    match o {
        ValueModel::Boolean(b) => b,
        _ => false,
    }
}

impl MockServerRegistry {
    /// Resolves a write request against the instance of `id`: the pact
    /// snapshot to serialize, the directory, and the overwrite choice. An
    /// unknown identifier is reported, not ignored.
    pub fn prepare_write(
        &self,
        id: &String,
        directory: &DynamicValue,
        overwrite: &DynamicValue,
    ) -> (r: Result<WritePlan, RegistryError>)
        ensures
            match r {
                Err(RegistryError::NotFound { id: rid }) => !spec_has_instance(self@, id@)
                    && rid@ == id@,
                Ok(plan) => {
                    &&& spec_has_instance(self@, id@)
                    &&& plan.pact@ == self@.instances[spec_instance_index(
                        self@.instances,
                        id@,
                    )].pact
                    &&& opt_text_model(plan.directory) == spec_write_directory(directory@)
                    &&& plan.overwrite == spec_write_overwrite(overwrite@)
                },
            },
    {
        let i = self.find_instance(id);
        if i < self.instances.len() {
            proof {
                lemma_instance_index(self@.instances, id@, 0);
            }
            let dir: Option<String> = match directory {
                DynamicValue::Text(s) => {
                    if s.as_str().unicode_len() > 0 {
                        Option::Some(s.clone())
                    } else {
                        Option::None
                    }
                },
                _ => Option::None,
            };
            let over: bool = match overwrite {
                DynamicValue::Boolean(b) => *b,
                _ => false,
            };
            Ok(WritePlan { pact: self.instances[i].pact.snapshot(), directory: dir, overwrite: over })
        } else {
            Err(RegistryError::NotFound { id: id.clone() })
        }
    }
}

} // verus!
