//! Request builders: one slot per field, filled by setters and resolved, in
//! declaration order, when the request is built.

use crate::error::{ErrorModel, RequestError};
use crate::headers::HeaderMap;
use crate::meta::{copy_text, opt_text, views};
use crate::request::{
    delivered, delivered_with, dispatch, planned, planned_with, PreparedRequest, Request,
};
use crate::schema::{
    field_index, find_field, Extraction, ExtractionModel, FieldDescriptor, FieldDescriptorModel,
    RequestDescriptor, RequestDescriptorModel,
};
use crate::transport::{HttpClient, RequestModifier};
use crate::value::{opt_value, slot_models, FieldValue, ValueModel};
use std::time::Duration;
use vstd::prelude::*;

verus! {

/// What a slot resolves to when the request is built.
///
/// A slot that was set gives its value. An unset slot gives nothing for an
/// optional field, the default for a field that falls back to one, and the
/// missing-field error, naming the field, for a required field.
pub open spec fn resolved(field: FieldDescriptorModel, slot: Option<ValueModel>) -> Result<
    Option<ValueModel>,
    ErrorModel,
> {
    match slot {
        Some(v) => Ok(Some(v)),
        None => match field.extraction {
            ExtractionModel::PassThrough => Ok(None),
            ExtractionModel::UseDefault(z) => Ok(Some(z)),
            ExtractionModel::Required => Err(ErrorModel::MissingField { field: field.name }),
        },
    }
}

/// Whether a field's validator is consulted: the field declares one, and its
/// slot resolves to a value. An absent value is not validated.
pub open spec fn validated(field: FieldDescriptorModel, slot: Option<ValueModel>) -> bool {
    field.validate is Some && resolved(field, slot) matches Ok(Some(_))
}

/// What one field contributes to the request, given the verdict of its
/// validator: `None` for acceptance, `Some` with the validator's message for
/// rejection. The verdict counts only where the validator is consulted.
pub open spec fn checked(
    field: FieldDescriptorModel,
    slot: Option<ValueModel>,
    verdict: Option<Seq<char>>,
) -> Result<Option<ValueModel>, ErrorModel> {
    match resolved(field, slot) {
        Err(e) => Err(e),
        Ok(v) => if validated(field, slot) && verdict is Some {
            Err(ErrorModel::ValidationError { field: field.name, message: verdict->0 })
        } else {
            Ok(v)
        },
    }
}

/// The outcome of building after the first `n` fields: their values, or the
/// error of the first field that fails. Fields are taken in declaration
/// order, and nothing after a failure is looked at.
pub open spec fn built_upto(
    fields: Seq<FieldDescriptorModel>,
    slots: Seq<Option<ValueModel>>,
    verdicts: Seq<Option<Seq<char>>>,
    n: nat,
) -> Result<Seq<Option<ValueModel>>, ErrorModel>
    decreases n,
{
    if n == 0 {
        Ok(Seq::empty())
    } else {
        match built_upto(fields, slots, verdicts, (n - 1) as nat) {
            Err(e) => Err(e),
            Ok(values) => match checked(fields[n - 1], slots[n - 1], verdicts[n - 1]) {
                Err(e) => Err(e),
                Ok(v) => Ok(values.push(v)),
            },
        }
    }
}

/// The outcome of building: the values of all fields, or the error of the
/// first field that fails.
pub open spec fn built(
    fields: Seq<FieldDescriptorModel>,
    slots: Seq<Option<ValueModel>>,
    verdicts: Seq<Option<Seq<char>>>,
) -> Result<Seq<Option<ValueModel>>, ErrorModel> {
    built_upto(fields, slots, verdicts, fields.len())
}

/// The slots after the setter of `name` took `value`: the slot of the first
/// field of that name holds the value; without such a field nothing changes.
pub open spec fn with_slot(
    fields: Seq<FieldDescriptorModel>,
    slots: Seq<Option<ValueModel>>,
    name: Seq<char>,
    value: ValueModel,
) -> Seq<Option<ValueModel>> {
    let i = field_index(fields, name);
    if 0 <= i < slots.len() {
        slots.update(i, Some(value))
    } else {
        slots
    }
}

/// What a validator's answer says: acceptance, or rejection with a message.
pub open spec fn verdict_of(answer: Result<(), String>) -> Option<Seq<char>> {
    match answer {
        Ok(_) => None,
        Err(m) => Some(m@),
    }
}

/// The validator, asked about `validator` and `value`, may answer with
/// `verdict`.
pub open spec fn answered<F: Fn(&str, &FieldValue) -> Result<(), String>>(
    validate: F,
    validator: Seq<char>,
    value: ValueModel,
    verdict: Option<Seq<char>>,
) -> bool {
    exists|n: &str, v: &FieldValue, answer: Result<(), String>|
        n@ == validator && v@ == value && #[trigger] call_ensures(validate, (n, v), answer)
            && verdict_of(answer) == verdict
}

/// Every verdict that counts is an answer of the validator: for each field
/// that is reached without an earlier failure and whose validator is
/// consulted, the validator may answer so when asked about the field's
/// validator path and its resolved value.
pub open spec fn heard<F: Fn(&str, &FieldValue) -> Result<(), String>>(
    validate: F,
    fields: Seq<FieldDescriptorModel>,
    slots: Seq<Option<ValueModel>>,
    verdicts: Seq<Option<Seq<char>>>,
    n: nat,
) -> bool {
    forall|i: int|
        0 <= i < n && built_upto(fields, slots, verdicts, i as nat) is Ok && #[trigger] validated(
            fields[i],
            slots[i],
        ) ==> answered(
            validate,
            fields[i].validate->0,
            resolved(fields[i], slots[i])->Ok_0->0,
            verdicts[i],
        )
}

/// The outcome of building up to `n` depends on the verdicts before `n`
/// alone.
pub proof fn lemma_built_upto_prefix(
    fields: Seq<FieldDescriptorModel>,
    slots: Seq<Option<ValueModel>>,
    first: Seq<Option<Seq<char>>>,
    second: Seq<Option<Seq<char>>>,
    n: nat,
)
    requires
        forall|i: int| 0 <= i < n ==> first[i] == second[i],
    ensures
        built_upto(fields, slots, first, n) == built_upto(fields, slots, second, n),
    decreases n,
{
    if n > 0 {
        lemma_built_upto_prefix(fields, slots, first, second, (n - 1) as nat);
    }
}

/// The values of a successful outcome are as many as the fields looked at.
pub proof fn lemma_built_upto_len(
    fields: Seq<FieldDescriptorModel>,
    slots: Seq<Option<ValueModel>>,
    verdicts: Seq<Option<Seq<char>>>,
    n: nat,
)
    ensures
        built_upto(fields, slots, verdicts, n) matches Ok(values) ==> values.len() == n,
    decreases n,
{
    if n > 0 {
        lemma_built_upto_len(fields, slots, verdicts, (n - 1) as nat);
    }
}

/// A validator that accepts every value.
pub fn accept_all(validator: &str, value: &FieldValue) -> (r: Result<(), String>)
    ensures
        r is Ok,
{
    Ok(())
}

/// The error that a validator's rejection of a field gives.
pub fn rejection(field: &str, message: String) -> (e: RequestError)
    ensures
        e@ == (ErrorModel::ValidationError { field: field@, message: message@ }),
{
    RequestError::ValidationError { field: copy_text(field), message }
}

/// Resolves one slot: see `resolved`.
pub fn resolve_slot(field: &FieldDescriptor, slot: &Option<FieldValue>) -> (r: Result<
    Option<FieldValue>,
    RequestError,
>)
    ensures
        match r {
            Ok(v) => resolved(field@, opt_value(*slot)) == Ok::<Option<ValueModel>, ErrorModel>(
                opt_value(v),
            ),
            Err(e) => resolved(field@, opt_value(*slot)) == Err::<Option<ValueModel>, ErrorModel>(
                e@,
            ),
        },
{
    match slot {
        Some(v) => Ok(Some(v.duplicate())),
        None => match &field.extraction {
            Extraction::PassThrough => Ok(None),
            Extraction::UseDefault(z) => Ok(Some(z.duplicate())),
            Extraction::Required => Err(RequestError::missing_field(field.name.as_str())),
        },
    }
}

/// The view of the outcome of building.
pub open spec fn outcome(r: Result<Request<'_>, RequestError>) -> Result<
    Seq<Option<ValueModel>>,
    ErrorModel,
> {
    match r {
        Ok(q) => Ok(q.values()),
        Err(e) => Err(e@),
    }
}

/// What preparing may give once the base URL is there, given the outcome of
/// building: a failed build is the result; a built request is prepared.
pub open spec fn prepared(
    d: RequestDescriptorModel,
    outcome: Result<Seq<Option<ValueModel>>, ErrorModel>,
    base: Seq<char>,
    extra: Map<Seq<char>, Seq<char>>,
    timeout: Option<Duration>,
    r: Result<PreparedRequest, RequestError>,
) -> bool {
    match outcome {
        Err(e) => r matches Err(x) && x@ == e,
        Ok(values) => planned(d, values, base, extra, timeout, r),
    }
}

/// What `send` may answer once client and base URL are there, given the
/// outcome of building: a failed build is the answer; a built request is
/// sent.
pub open spec fn sent<C: HttpClient>(
    d: RequestDescriptorModel,
    outcome: Result<Seq<Option<ValueModel>>, ErrorModel>,
    client: &C,
    base: Seq<char>,
    extra: Map<Seq<char>, Seq<char>>,
    timeout: Option<Duration>,
    r: Result<Vec<u8>, RequestError>,
) -> bool {
    match outcome {
        Err(e) => r matches Err(x) && x@ == e,
        Ok(values) => delivered(d, values, client, base, extra, timeout, r),
    }
}

/// What preparing with an encoder of the caller's choice may give once the
/// base URL is there, given the outcome of building: a failed build is the
/// result; a built request is prepared.
pub open spec fn prepared_with<E: Fn(&str, &str) -> Result<String, String>>(
    d: RequestDescriptorModel,
    outcome: Result<Seq<Option<ValueModel>>, ErrorModel>,
    base: Seq<char>,
    extra: Map<Seq<char>, Seq<char>>,
    timeout: Option<Duration>,
    encode: E,
    r: Result<PreparedRequest, RequestError>,
) -> bool {
    match outcome {
        Err(e) => r matches Err(x) && x@ == e,
        Ok(values) => planned_with(d, values, base, extra, timeout, encode, r),
    }
}

/// What sending with an encoder of the caller's choice may answer once
/// client and base URL are there, given the outcome of building: a failed
/// build is the answer; a built request is sent.
pub open spec fn sent_with<C: HttpClient, E: Fn(&str, &str) -> Result<String, String>>(
    d: RequestDescriptorModel,
    outcome: Result<Seq<Option<ValueModel>>, ErrorModel>,
    client: &C,
    base: Seq<char>,
    extra: Map<Seq<char>, Seq<char>>,
    timeout: Option<Duration>,
    encode: E,
    r: Result<Vec<u8>, RequestError>,
) -> bool {
    match outcome {
        Err(e) => r matches Err(x) && x@ == e,
        Ok(values) => delivered_with(d, values, client, base, extra, timeout, encode, r),
    }
}

/// The view of the outcome of resolving all slots.
pub open spec fn values_outcome(r: Result<Vec<Option<FieldValue>>, RequestError>) -> Result<
    Seq<Option<ValueModel>>,
    ErrorModel,
> {
    match r {
        Ok(values) => Ok(slot_models(values@)),
        Err(e) => Err(e@),
    }
}

fn resolve_slots<F>(
    descriptor: &RequestDescriptor,
    slots_in: &Vec<Option<FieldValue>>,
    validate: F,
) -> (r: Result<Vec<Option<FieldValue>>, RequestError>) where
    F: Fn(&str, &FieldValue) -> Result<(), String>,

    requires
        slots_in@.len() == descriptor.fields@.len(),
        forall|n: &str, v: &FieldValue| call_requires(validate, (n, v)),
    ensures
        r matches Ok(values) ==> values@.len() == descriptor.fields@.len(),
        exists|verdicts: Seq<Option<Seq<char>>>|
            verdicts.len() == descriptor.fields@.len() && heard(
                validate,
                views(descriptor.fields@),
                slot_models(slots_in@),
                verdicts,
                descriptor.fields@.len(),
            ) && #[trigger] built(views(descriptor.fields@), slot_models(slots_in@), verdicts)
                == values_outcome(r),
{
    let ghost fields = views(descriptor.fields@);
    let ghost slots = slot_models(slots_in@);
    let count = descriptor.fields.len();
    let mut values: Vec<Option<FieldValue>> = Vec::new();
    let mut failure: Option<RequestError> = None;
    let ghost mut verdicts: Seq<Option<Seq<char>>> = Seq::empty();
    let mut i: usize = 0;
    proof {
        assert(slot_models(values@) =~= Seq::<Option<ValueModel>>::empty());
    }
    while i < count
        invariant
            i <= count,
            count == descriptor.fields@.len(),
            slots_in@.len() == count,
            fields == views(descriptor.fields@),
            slots == slot_models(slots_in@),
            forall|n: &str, v: &FieldValue| call_requires(validate, (n, v)),
            verdicts.len() == i,
            heard(validate, fields, slots, verdicts, i as nat),
            match failure {
                None => built_upto(fields, slots, verdicts, i as nat) == Ok::<
                    Seq<Option<ValueModel>>,
                    ErrorModel,
                >(slot_models(values@)),
                Some(e) => built_upto(fields, slots, verdicts, i as nat) == Err::<
                    Seq<Option<ValueModel>>,
                    ErrorModel,
                >(e@),
            },
            failure is None ==> values@.len() == i,
        decreases count - i,
    {
        let field = &descriptor.fields[i];
        let ghost before = verdicts;
        let ghost mut verdict: Option<Seq<char>> = None;
        proof {
            assert(fields[i as int] == field@);
            assert(slots[i as int] == opt_value(slots_in@[i as int]));
        }
        if failure.is_none() {
            match resolve_slot(field, &slots_in[i]) {
                Err(e) => {
                    failure = Some(e);
                },
                Ok(value) => {
                    let mut rejected: Option<RequestError> = None;
                    match (&field.validate, &value) {
                        (Some(validator), Some(v)) => {
                            let asked = validator.as_str();
                            let answer = validate(asked, v);
                            proof {
                                verdict = verdict_of(answer);
                                assert(call_ensures(validate, (asked, v), answer));
                                assert(answered(validate, validator@, v@, verdict));
                            }
                            match answer {
                                Ok(_) => {},
                                Err(message) => {
                                    rejected = Some(rejection(field.name.as_str(), message));
                                },
                            }
                        },
                        _ => {},
                    }
                    match rejected {
                        Some(e) => {
                            failure = Some(e);
                        },
                        None => {
                            let ghost old_values = slot_models(values@);
                            values.push(value);
                            assert(slot_models(values@) =~= old_values.push(opt_value(value)));
                        },
                    }
                },
            }
        }
        proof {
            verdicts = before.push(verdict);
            lemma_built_upto_prefix(fields, slots, before, verdicts, i as nat);
            assert forall|k: int|
                0 <= k < i + 1 && built_upto(fields, slots, verdicts, k as nat) is Ok
                    && #[trigger] validated(fields[k], slots[k]) implies answered(
                validate,
                fields[k].validate->0,
                resolved(fields[k], slots[k])->Ok_0->0,
                verdicts[k],
            ) by {
                lemma_built_upto_prefix(fields, slots, before, verdicts, k as nat);
                if k < i {
                    assert(verdicts[k] == before[k]);
                }
            }
        }
        i += 1;
    }
    proof {
        assert(built(fields, slots, verdicts) == built_upto(fields, slots, verdicts, count as nat));
    }
    match failure {
        Some(e) => Err(e),
        None => Ok(values),
    }
}

/// A builder of requests of one type.
///
/// It holds one slot per field, an optional transport client, an optional
/// base URL, extra headers and an optional timeout. Setters hand the builder
/// on; `build` and `send` consume it.
#[derive(Debug)]
pub struct RequestBuilder<'a, C = ()> {
    descriptor: &'a RequestDescriptor,
    slots: Vec<Option<FieldValue>>,
    http_client: Option<C>,
    base_url: Option<String>,
    dynamic_headers: HeaderMap,
    timeout: Option<Duration>,
}

impl<'a> RequestBuilder<'a, ()> {
    /// A builder for requests of the described type, with every slot unset
    /// and neither client, base URL, extra header nor timeout.
    pub fn new(descriptor: &'a RequestDescriptor) -> (r: Self)
        ensures
            r.descriptor() == descriptor@,
            r.slots() == Seq::new(descriptor@.fields.len(), |i: int| None::<ValueModel>),
            r.client() is None,
            r.base() is None,
            r.headers() == Map::<Seq<char>, Seq<char>>::empty(),
            r.time_limit() is None,
    {
        RequestBuilder::detached(descriptor)
    }
}

impl<'a, C> RequestBuilder<'a, C> {
    #[verifier::type_invariant]
    spec fn shape(self) -> bool {
        self.slots@.len() == self.descriptor.fields@.len()
    }

    /// What the request's type declares.
    pub closed spec fn descriptor(&self) -> RequestDescriptorModel {
        self.descriptor@
    }

    /// The slots, in declaration order.
    pub closed spec fn slots(&self) -> Seq<Option<ValueModel>> {
        slot_models(self.slots@)
    }

    /// The transport client, where one was given.
    pub closed spec fn client(&self) -> Option<C> {
        self.http_client
    }

    /// The base URL, where one was given.
    pub closed spec fn base(&self) -> Option<Seq<char>> {
        opt_text(self.base_url)
    }

    /// The extra headers.
    pub closed spec fn headers(&self) -> Map<Seq<char>, Seq<char>> {
        self.dynamic_headers@
    }

    /// The timeout, where one was set.
    pub closed spec fn time_limit(&self) -> Option<Duration> {
        self.timeout
    }

    /// A builder for requests of the described type that is meant for a
    /// client of type `C` but has none yet: every slot is unset, and there is
    /// neither client, base URL, extra header nor timeout.
    pub fn detached(descriptor: &'a RequestDescriptor) -> (r: Self)
        ensures
            r.descriptor() == descriptor@,
            r.slots() == Seq::new(descriptor@.fields.len(), |i: int| None::<ValueModel>),
            r.client() is None,
            r.base() is None,
            r.headers() == Map::<Seq<char>, Seq<char>>::empty(),
            r.time_limit() is None,
    {
        let mut slots: Vec<Option<FieldValue>> = Vec::new();
        let mut i: usize = 0;
        while i < descriptor.fields.len()
            invariant
                i <= descriptor.fields.len(),
                slots@.len() == i,
                forall|k: int| 0 <= k < i ==> slots@[k] is None,
            decreases descriptor.fields.len() - i,
        {
            slots.push(None);
            i += 1;
        }
        let r = RequestBuilder {
            descriptor,
            slots,
            http_client: None,
            base_url: None,
            dynamic_headers: HeaderMap::new(),
            timeout: None,
        };
        assert(r.slots() =~= Seq::new(descriptor@.fields.len(), |i: int| None::<ValueModel>));
        r
    }

    /// Gives the builder the client that `send` uses.
    pub fn http_client<C2: HttpClient>(self, client: C2) -> (r: RequestBuilder<'a, C2>)
        ensures
            r.client() == Some(client),
            r.descriptor() == self.descriptor(),
            r.slots() == self.slots(),
            r.base() == self.base(),
            r.headers() == self.headers(),
            r.time_limit() == self.time_limit(),
    {
        proof {
            use_type_invariant(&self);
        }
        RequestBuilder {
            descriptor: self.descriptor,
            slots: self.slots,
            http_client: Some(client),
            base_url: self.base_url,
            dynamic_headers: self.dynamic_headers,
            timeout: self.timeout,
        }
    }

    /// Sets the base URL that `send` puts before the request's own URL.
    pub fn base_url(self, base_url: &str) -> (r: Self)
        ensures
            r.base() == Some(base_url@),
            r.descriptor() == self.descriptor(),
            r.slots() == self.slots(),
            r.client() == self.client(),
            r.headers() == self.headers(),
            r.time_limit() == self.time_limit(),
    {
        proof {
            use_type_invariant(&self);
        }
        RequestBuilder {
            descriptor: self.descriptor,
            slots: self.slots,
            http_client: self.http_client,
            base_url: Some(copy_text(base_url)),
            dynamic_headers: self.dynamic_headers,
            timeout: self.timeout,
        }
    }

    /// The setter of the field called `name`: its slot takes `value`. A name
    /// that no field carries changes nothing.
    pub fn set(self, name: &str, value: FieldValue) -> (r: Self)
        ensures
            r.slots() == with_slot(self.descriptor().fields, self.slots(), name@, value@),
            r.slots().len() == self.descriptor().fields.len(),
            r.descriptor() == self.descriptor(),
            r.client() == self.client(),
            r.base() == self.base(),
            r.headers() == self.headers(),
            r.time_limit() == self.time_limit(),
    {
        proof {
            use_type_invariant(&self);
        }
        let i = find_field(&self.descriptor.fields, name);
        let mut slots = self.slots;
        if i < slots.len() {
            slots.set(i, Some(value));
        }
        let r = RequestBuilder {
            descriptor: self.descriptor,
            slots,
            http_client: self.http_client,
            base_url: self.base_url,
            dynamic_headers: self.dynamic_headers,
            timeout: self.timeout,
        };
        assert(r.slots() =~= with_slot(self.descriptor().fields, self.slots(), name@, value@));
        r
    }

    /// The value in the slot of the field called `name`: nothing where there
    /// is no such field or its slot is unset.
    pub fn slot(&self, name: &str) -> (r: Option<&FieldValue>)
        ensures
            self.slots().len() == self.descriptor().fields.len(),
            match r {
                Some(v) => {
                    let i = field_index(self.descriptor().fields, name@);
                    i < self.slots().len() && self.slots()[i] == Some(v@)
                },
                None => {
                    let i = field_index(self.descriptor().fields, name@);
                    i >= self.slots().len() || self.slots()[i] is None
                },
            },
    {
        proof {
            use_type_invariant(self);
        }
        let i = find_field(&self.descriptor.fields, name);
        if i < self.slots.len() {
            self.slots[i].as_ref()
        } else {
            None
        }
    }

    /// Whether a transport client was given.
    pub fn has_http_client(&self) -> (r: bool)
        ensures
            r == (self.client() is Some),
    {
        self.http_client.is_some()
    }

    /// The base URL, where one was given.
    pub fn base_url_text(&self) -> (r: Option<&String>)
        ensures
            match r {
                Some(s) => self.base() == Some(s@),
                None => self.base() is None,
            },
    {
        self.base_url.as_ref()
    }

    /// The extra header called `name`, where there is one.
    pub fn dynamic_header(&self, name: &str) -> (r: Option<&String>)
        ensures
            match r {
                Some(v) => self.headers().contains_key(name@) && v@ == self.headers()[name@],
                None => !self.headers().contains_key(name@),
            },
    {
        proof {
            use_type_invariant(self);
        }
        self.dynamic_headers.get(name)
    }

    /// Builds the request: resolves every slot in declaration order and
    /// consults the validators of the fields that declare one.
    ///
    /// There are verdicts, one per field, such that every verdict that counts
    /// is an answer that `validate` gave, and the result is what `built` says
    /// for them: the request with all values, or the error of the first field
    /// that fails, be it a required field without value or a rejected value.
    /// After a failure no validator is asked.
    pub fn build<F>(self, validate: F) -> (r: Result<Request<'a>, RequestError>) where
        F: Fn(&str, &FieldValue) -> Result<(), String>,

        requires
            forall|n: &str, v: &FieldValue| call_requires(validate, (n, v)),
        ensures
            r matches Ok(q) ==> q.descriptor() == self.descriptor(),
            exists|verdicts: Seq<Option<Seq<char>>>|
                verdicts.len() == self.descriptor().fields.len() && heard(
                    validate,
                    self.descriptor().fields,
                    self.slots(),
                    verdicts,
                    self.descriptor().fields.len(),
                ) && #[trigger] built(self.descriptor().fields, self.slots(), verdicts) == outcome(
                    r,
                ),
    {
        proof {
            use_type_invariant(&self);
        }
        let resolution = resolve_slots(self.descriptor, &self.slots, validate);
        let ghost verdicts = choose|verdicts: Seq<Option<Seq<char>>>|
            verdicts.len() == self.descriptor().fields.len() && heard(
                validate,
                self.descriptor().fields,
                self.slots(),
                verdicts,
                self.descriptor().fields.len(),
            ) && #[trigger] built(self.descriptor().fields, self.slots(), verdicts)
                == values_outcome(resolution);
        let r = match resolution {
            Ok(values) => Ok(Request::assemble(self.descriptor, values)),
            Err(e) => Err(e),
        };
        assert(built(self.descriptor().fields, self.slots(), verdicts) == outcome(r));
        r
    }

    /// Builds the request and prepares what goes on the wire for it: the
    /// builder's base URL followed by the request's own URL, the request's
    /// headers with the builder's extra headers over them, the body and the
    /// builder's timeout.
    ///
    /// Fails with a missing base URL where none was set, else as `build`
    /// fails, else as preparing the request fails.
    pub fn prepare<F>(self, validate: F) -> (r: Result<PreparedRequest, RequestError>) where
        F: Fn(&str, &FieldValue) -> Result<(), String>,

        requires
            self.descriptor().path is Some,
            forall|n: &str, v: &FieldValue| call_requires(validate, (n, v)),
        ensures
            self.base() is None ==> (r matches Err(e) && e@ == ErrorModel::MissingBaseUrl),
            self.base() is Some ==> exists|verdicts: Seq<Option<Seq<char>>>|
                verdicts.len() == self.descriptor().fields.len() && heard(
                    validate,
                    self.descriptor().fields,
                    self.slots(),
                    verdicts,
                    self.descriptor().fields.len(),
                ) && prepared(
                    self.descriptor(),
                    #[trigger] built(self.descriptor().fields, self.slots(), verdicts),
                    self.base()->0,
                    self.headers(),
                    self.time_limit(),
                    r,
                ),
    {
        proof {
            use_type_invariant(&self);
        }
        let base = match self.base_url {
            Some(b) => b,
            None => {
                return Err(RequestError::MissingBaseUrl);
            },
        };
        let resolution = resolve_slots(self.descriptor, &self.slots, validate);
        let ghost verdicts = choose|verdicts: Seq<Option<Seq<char>>>|
            verdicts.len() == self.descriptor().fields.len() && heard(
                validate,
                self.descriptor().fields,
                self.slots(),
                verdicts,
                self.descriptor().fields.len(),
            ) && #[trigger] built(self.descriptor().fields, self.slots(), verdicts)
                == values_outcome(resolution);
        let ghost outcome = built(self.descriptor().fields, self.slots(), verdicts);
        let values = match resolution {
            Ok(values) => values,
            Err(e) => {
                let r = Err(e);
                assert(prepared(
                    self.descriptor(),
                    outcome,
                    base@,
                    self.headers(),
                    self.time_limit(),
                    r,
                ));
                return r;
            },
        };
        let request = Request::assemble(self.descriptor, values);
        let r = request.prepare(base.as_str(), &self.dynamic_headers, self.timeout);
        assert(prepared(self.descriptor(), outcome, base@, self.headers(), self.time_limit(), r));
        r
    }

    /// Builds the request and sends it with the builder's client to the
    /// builder's base URL followed by the request's own URL. The extra headers
    /// of the builder go with the request's headers and win over them.
    ///
    /// Fails with a missing field called `http_client` where no client was
    /// given, else with a missing base URL where none was set, else as `build`
    /// fails. A placeholder whose field holds no value gives a URL error with
    /// the missing path parameter inside. After that the client is handed
    /// exactly the wire form of the request and its answer decides: its
    /// response is the result, and its error gives an HTTP error with what
    /// that error displays.
    pub fn send<F>(self, validate: F) -> (r: Result<Vec<u8>, RequestError>) where
        C: HttpClient,
        F: Fn(&str, &FieldValue) -> Result<(), String>,

        requires
            self.descriptor().path is Some,
            forall|n: &str, v: &FieldValue| call_requires(validate, (n, v)),
        ensures
            self.client() is None ==> (r matches Err(e) && e@ == (ErrorModel::MissingField {
                field: "http_client"@,
            })),
            self.client() is Some && self.base() is None ==> (r matches Err(e) && e@
                == ErrorModel::MissingBaseUrl),
            self.client() is Some && self.base() is Some ==> exists|
                verdicts: Seq<Option<Seq<char>>>,
            |
                verdicts.len() == self.descriptor().fields.len() && heard(
                    validate,
                    self.descriptor().fields,
                    self.slots(),
                    verdicts,
                    self.descriptor().fields.len(),
                ) && sent(
                    self.descriptor(),
                    #[trigger] built(self.descriptor().fields, self.slots(), verdicts),
                    &self.client()->0,
                    self.base()->0,
                    self.headers(),
                    self.time_limit(),
                    r,
                ),
    {
        proof {
            use_type_invariant(&self);
        }
        let client = match self.http_client {
            Some(c) => c,
            None => {
                return Err(RequestError::missing_field("http_client"));
            },
        };
        let base = match self.base_url {
            Some(b) => b,
            None => {
                return Err(RequestError::MissingBaseUrl);
            },
        };
        let resolution = resolve_slots(self.descriptor, &self.slots, validate);
        let ghost verdicts = choose|verdicts: Seq<Option<Seq<char>>>|
            verdicts.len() == self.descriptor().fields.len() && heard(
                validate,
                self.descriptor().fields,
                self.slots(),
                verdicts,
                self.descriptor().fields.len(),
            ) && #[trigger] built(self.descriptor().fields, self.slots(), verdicts)
                == values_outcome(resolution);
        let ghost outcome = built(self.descriptor().fields, self.slots(), verdicts);
        let ghost d = self.descriptor();
        let ghost extra = self.headers();
        let values = match resolution {
            Ok(values) => values,
            Err(e) => {
                let r = Err(e);
                assert(sent(d, outcome, &client, base@, extra, self.timeout, r));
                return r;
            },
        };
        let request = Request::assemble(self.descriptor, values);
        let wire = match request.prepare(base.as_str(), &self.dynamic_headers, self.timeout) {
            Ok(w) => w,
            Err(e) => {
                let r = Err(e);
                assert(sent(d, outcome, &client, base@, extra, self.timeout, r));
                return r;
            },
        };
        let r = dispatch(&client, wire);
        assert(sent(d, outcome, &client, base@, extra, self.timeout, r));
        r
    }

    /// As `prepare`, with a query string from an encoder of the caller's
    /// choice.
    pub fn prepare_with<F, E>(self, validate: F, encode: E) -> (r: Result<
        PreparedRequest,
        RequestError,
    >) where
        F: Fn(&str, &FieldValue) -> Result<(), String>,
        E: Fn(&str, &str) -> Result<String, String>,

        requires
            self.descriptor().path is Some,
            forall|n: &str, v: &FieldValue| call_requires(validate, (n, v)),
            forall|k: &str, v: &str| call_requires(encode, (k, v)),
        ensures
            self.base() is None ==> (r matches Err(e) && e@ == ErrorModel::MissingBaseUrl),
            self.base() is Some ==> exists|verdicts: Seq<Option<Seq<char>>>|
                verdicts.len() == self.descriptor().fields.len() && heard(
                    validate,
                    self.descriptor().fields,
                    self.slots(),
                    verdicts,
                    self.descriptor().fields.len(),
                ) && prepared_with(
                    self.descriptor(),
                    #[trigger] built(self.descriptor().fields, self.slots(), verdicts),
                    self.base()->0,
                    self.headers(),
                    self.time_limit(),
                    encode,
                    r,
                ),
    {
        proof {
            use_type_invariant(&self);
        }
        let base = match self.base_url {
            Some(b) => b,
            None => {
                return Err(RequestError::MissingBaseUrl);
            },
        };
        let resolution = resolve_slots(self.descriptor, &self.slots, validate);
        let ghost verdicts = choose|verdicts: Seq<Option<Seq<char>>>|
            verdicts.len() == self.descriptor().fields.len() && heard(
                validate,
                self.descriptor().fields,
                self.slots(),
                verdicts,
                self.descriptor().fields.len(),
            ) && #[trigger] built(self.descriptor().fields, self.slots(), verdicts)
                == values_outcome(resolution);
        let ghost outcome = built(self.descriptor().fields, self.slots(), verdicts);
        let ghost d = self.descriptor();
        let ghost extra = self.headers();
        let values = match resolution {
            Ok(values) => values,
            Err(e) => {
                let r = Err(e);
                assert(prepared_with(d, outcome, base@, extra, self.timeout, encode, r));
                return r;
            },
        };
        let request = Request::assemble(self.descriptor, values);
        let r = request.prepare_with(base.as_str(), &self.dynamic_headers, self.timeout, encode);
        assert(prepared_with(d, outcome, base@, extra, self.timeout, encode, r));
        r
    }

    /// As `send`, with a query string from an encoder of the caller's choice.
    pub fn send_with<F, E>(self, validate: F, encode: E) -> (r: Result<Vec<u8>, RequestError>) where
        C: HttpClient,
        F: Fn(&str, &FieldValue) -> Result<(), String>,
        E: Fn(&str, &str) -> Result<String, String>,

        requires
            self.descriptor().path is Some,
            forall|n: &str, v: &FieldValue| call_requires(validate, (n, v)),
            forall|k: &str, v: &str| call_requires(encode, (k, v)),
        ensures
            self.client() is None ==> (r matches Err(e) && e@ == (ErrorModel::MissingField {
                field: "http_client"@,
            })),
            self.client() is Some && self.base() is None ==> (r matches Err(e) && e@
                == ErrorModel::MissingBaseUrl),
            self.client() is Some && self.base() is Some ==> exists|
                verdicts: Seq<Option<Seq<char>>>,
            |
                verdicts.len() == self.descriptor().fields.len() && heard(
                    validate,
                    self.descriptor().fields,
                    self.slots(),
                    verdicts,
                    self.descriptor().fields.len(),
                ) && sent_with(
                    self.descriptor(),
                    #[trigger] built(self.descriptor().fields, self.slots(), verdicts),
                    &self.client()->0,
                    self.base()->0,
                    self.headers(),
                    self.time_limit(),
                    encode,
                    r,
                ),
    {
        proof {
            use_type_invariant(&self);
        }
        let client = match self.http_client {
            Some(c) => c,
            None => {
                return Err(RequestError::missing_field("http_client"));
            },
        };
        let base = match self.base_url {
            Some(b) => b,
            None => {
                return Err(RequestError::MissingBaseUrl);
            },
        };
        let resolution = resolve_slots(self.descriptor, &self.slots, validate);
        let ghost verdicts = choose|verdicts: Seq<Option<Seq<char>>>|
            verdicts.len() == self.descriptor().fields.len() && heard(
                validate,
                self.descriptor().fields,
                self.slots(),
                verdicts,
                self.descriptor().fields.len(),
            ) && #[trigger] built(self.descriptor().fields, self.slots(), verdicts)
                == values_outcome(resolution);
        let ghost outcome = built(self.descriptor().fields, self.slots(), verdicts);
        let ghost d = self.descriptor();
        let ghost extra = self.headers();
        let values = match resolution {
            Ok(values) => values,
            Err(e) => {
                let r = Err(e);
                assert(sent_with(d, outcome, &client, base@, extra, self.timeout, encode, r));
                return r;
            },
        };
        let request = Request::assemble(self.descriptor, values);
        let r = request.send_with(&client, base.as_str(), &self.dynamic_headers, self.timeout, encode);
        assert(sent_with(d, outcome, &client, base@, extra, self.timeout, encode, r));
        r
    }
}

impl<'a, C> RequestModifier for RequestBuilder<'a, C> {
    open spec fn added_headers(&self) -> Map<Seq<char>, Seq<char>> {
        self.headers()
    }

    open spec fn chosen_timeout(&self) -> Option<Duration> {
        self.time_limit()
    }

    fn header(self, name: &str, value: &str) -> (r: Self)
        ensures
            r.headers() == self.headers().insert(name@, value@),
            r.descriptor() == self.descriptor(),
            r.slots() == self.slots(),
            r.client() == self.client(),
            r.base() == self.base(),
            r.time_limit() == self.time_limit(),
    {
        proof {
            use_type_invariant(&self);
        }
        let mut headers = self.dynamic_headers;
        headers.insert(copy_text(name), copy_text(value));
        RequestBuilder {
            descriptor: self.descriptor,
            slots: self.slots,
            http_client: self.http_client,
            base_url: self.base_url,
            dynamic_headers: headers,
            timeout: self.timeout,
        }
    }

    fn timeout(self, timeout: Duration) -> (r: Self)
        ensures
            r.time_limit() == Some(timeout),
            r.descriptor() == self.descriptor(),
            r.slots() == self.slots(),
            r.client() == self.client(),
            r.base() == self.base(),
            r.headers() == self.headers(),
    {
        proof {
            use_type_invariant(&self);
        }
        RequestBuilder {
            descriptor: self.descriptor,
            slots: self.slots,
            http_client: self.http_client,
            base_url: self.base_url,
            dynamic_headers: self.dynamic_headers,
            timeout: Some(timeout),
        }
    }
}

} // verus!
