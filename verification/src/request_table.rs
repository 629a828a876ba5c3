//! Requests that wait for responses.

use slotmap::Key;
use vstd::prelude::*;

use crate::addr::Addr;
use crate::envelope::Envelope;
use crate::errors::RequestError;
use crate::tracing::TraceId;

verus! {

// === RequestId ===

/// The identifier of a request inside a table.
#[derive(Debug, Clone, Copy, PartialEq, Eq, Structural, Hash)]
pub struct RequestId {
    raw: u64,
}

/// A key in its raw form: the version in the high half is odd.
pub open spec fn is_key(raw: u64) -> bool {
    raw & 0x1_0000_0000 != 0
}

impl RequestId {
    pub closed spec fn raw(self) -> u64 {
        self.raw
    }

    #[verifier::type_invariant]
    closed spec fn inv(self) -> bool {
        is_key(self.raw)
    }

    pub fn to_ffi(self) -> (id: u64)
        ensures
            id == self.raw(),
            is_key(id),
    {
        proof {
            use_type_invariant(&self);
        }
        self.raw
    }

    /// Restores an id that is got from [`RequestId::to_ffi`].
    pub fn from_ffi(id: u64) -> (this: RequestId)
        ensures
            this.raw() == id | 0x1_0000_0000,
            is_key(id) ==> this.raw() == id,
    {
        let raw: u64 = id | 0x1_0000_0000;
        assert(raw & 0x1_0000_0000 != 0 && (id & 0x1_0000_0000 != 0 ==> raw == id)) by (bit_vector)
            requires
                raw == id | 0x1_0000_0000,
        ;
        RequestId { raw }
    }

    /// Whether it's the id that no request has.
    pub open spec fn spec_is_null(self) -> bool {
        self.raw() % 0x1_0000_0000 == 0xffff_ffff
    }

    pub fn is_null(&self) -> (res: bool)
        ensures
            res == self.spec_is_null(),
    {
        let raw: u64 = self.raw;
        assert(raw & 0xffff_ffff == raw % 0x1_0000_0000) by (bit_vector);
        raw & 0xffff_ffff == 0xffff_ffff
    }
}

// === Responses ===

pub type Response = Result<Envelope, RequestError>;

/// Responses to a request, usually there is only one.
#[verifier::external_body]
pub struct Responses {
    inner: smallvec::SmallVec<[Response; 1]>,
}

/// What responses a vector holds, from the first to the last.
pub uninterp spec fn responses_of(responses: Responses) -> Seq<Response>;

/// `SmallVec::new` creates an empty vector.
#[verifier::external_body]
fn responses_new() -> (responses: Responses)
    ensures
        responses_of(responses) == Seq::<Response>::empty(),
{
    Responses { inner: smallvec::SmallVec::new() }
}

/// `SmallVec::push` appends an element to the end.
#[verifier::external_body]
fn responses_push(responses: &mut Responses, response: Response)
    ensures
        responses_of(*final(responses)) == responses_of(*old(responses)).push(response),
{
    responses.inner.push(response)
}

/// `SmallVec::len` counts elements.
#[verifier::external_body]
fn responses_len(responses: &Responses) -> (len: usize)
    ensures
        len == responses_of(*responses).len(),
{
    responses.inner.len()
}

/// `SmallVec::pop` takes the last element out, `None` if there are no elements.
#[verifier::external_body]
fn responses_pop(responses: &mut Responses) -> (response: Option<Response>)
    ensures
        responses_of(*old(responses)).len() == 0 ==> response is None && responses_of(
            *final(responses),
        ) == responses_of(*old(responses)),
        responses_of(*old(responses)).len() > 0 ==> {
            &&& response == Some(responses_of(*old(responses)).last())
            &&& responses_of(*final(responses)) == responses_of(*old(responses)).drop_last()
        },
{
    responses.inner.pop()
}

/// `SmallVec::into_vec` moves all elements to a `Vec` in the same order.
#[verifier::external_body]
fn responses_into_vec(responses: Responses) -> (vec: Vec<Response>)
    ensures
        vec@ == responses_of(responses),
{
    responses.inner.into_vec()
}

/// `SmallVec::as_slice` gives all elements in the same order.
#[verifier::external_body]
fn responses_as_slice(responses: &Responses) -> (slice: &[Response])
    ensures
        slice@ == responses_of(*responses),
{
    responses.inner.as_slice()
}

// === RequestData ===

/// The state of a request.
pub struct RequestData {
    /// How many responses are still expected.
    pub remainder: usize,
    pub responses: Responses,
    /// Whether all responses are needed, otherwise the best one.
    pub collect_all: bool,
}

/// The state of a request as a value.
#[verifier::ext_equal]
pub struct RequestState {
    pub remainder: nat,
    pub responses: Seq<Response>,
    pub collect_all: bool,
}

impl RequestState {
    /// The state of a new request.
    pub open spec fn init(collect_all: bool) -> RequestState {
        RequestState { remainder: 1, responses: Seq::empty(), collect_all }
    }

    /// A request for any response holds at most one response.
    pub open spec fn wf(self) -> bool {
        !self.collect_all ==> self.responses.len() <= 1
    }

    /// Whether the response can come. A request for all responses gets exactly
    /// as many ones as it expects. A successful response to a request for any
    /// one is never replaced.
    pub open spec fn can_push(self, response: Response) -> bool {
        &&& self.remainder == 0 ==> !self.collect_all
        &&& self.remainder > 0 && !self.collect_all && self.responses.len() > 0 && response != Err::<
            Envelope,
            RequestError,
        >(RequestError::Failed) ==> self.responses[0] is Err
    }

    /// The state after the response.
    pub open spec fn pushed(self, response: Response) -> RequestState {
        if self.remainder == 0 {
            self
        } else if self.collect_all {
            RequestState {
                remainder: (self.remainder - 1) as nat,
                responses: self.responses.push(response),
                ..self
            }
        } else if response is Ok {
            RequestState { remainder: 0, responses: seq![response], ..self }
        } else {
            RequestState {
                remainder: (self.remainder - 1) as nat,
                responses: if self.responses.len() == 0 || response == Err::<
                    Envelope,
                    RequestError,
                >(RequestError::Ignored) {
                    seq![response]
                } else {
                    self.responses
                },
                ..self
            }
        }
    }

    /// The state after all responses.
    pub open spec fn pushed_all(self, responses: Seq<Response>) -> RequestState
        decreases responses.len(),
    {
        if responses.len() == 0 {
            self
        } else {
            self.pushed_all(responses.drop_last()).pushed(responses.last())
        }
    }
}

impl View for RequestData {
    type V = RequestState;

    open spec fn view(&self) -> RequestState {
        RequestState {
            remainder: self.remainder as nat,
            responses: responses_of(self.responses),
            collect_all: self.collect_all,
        }
    }
}

impl RequestData {
    /// A request that expects one response.
    pub fn new(collect_all: bool) -> (this: RequestData)
        ensures
            this@ == RequestState::init(collect_all),
            this@.wf(),
    {
        RequestData { remainder: 1, responses: responses_new(), collect_all }
    }

    /// Whether the response can come.
    pub fn is_pushable(&self, response: &Response) -> (res: bool)
        ensures
            res == self@.can_push(*response),
    {
        if self.remainder == 0 {
            return !self.collect_all;
        }

        let responses = responses_as_slice(&self.responses);
        if self.collect_all || responses.len() == 0 {
            return true;
        }

        match response {
            Err(RequestError::Failed) => true,
            _ => responses[0].is_err(),
        }
    }

    /// Returns `true` if the request is done.
    pub fn push(&mut self, response: Response) -> (is_done: bool)
        requires
            old(self)@.wf(),
            old(self)@.can_push(response),
        ensures
            final(self)@ == old(self)@.pushed(response),
            final(self)@.wf(),
            is_done == (old(self)@.remainder > 0 && final(self)@.remainder == 0),
    {
        // Extra responses (in `any` case).
        if self.remainder == 0 {
            return false;
        }

        self.remainder -= 1;

        if self.collect_all {
            responses_push(&mut self.responses, response);
            return self.remainder == 0;
        }

        let is_ok = response.is_ok();
        let is_ignored = match &response {
            Err(RequestError::Ignored) => true,
            _ => false,
        };

        // `Any` request contains at most one related response.
        // Priority: `Ok(_)` > `Err(Ignored)` > `Err(Failed)`
        if responses_len(&self.responses) == 0 {
            responses_push(&mut self.responses, response);
        } else if is_ok || is_ignored {
            let _ = responses_pop(&mut self.responses);
            responses_push(&mut self.responses, response);
        }

        // Received `Ok`, so prevent further responses.
        if is_ok {
            self.remainder = 0;
        }

        self.remainder == 0
    }
}

// === RequestTable ===

/// Requests by their keys.
#[verifier::external_body]
pub struct Requests {
    inner: slotmap::SlotMap<slotmap::DefaultKey, RequestData>,
}

/// What requests a slot map holds, by raw forms of their keys.
pub uninterp spec fn requests_of(requests: Requests) -> Map<u64, RequestData>;

/// `SlotMap::default` creates an empty map.
#[verifier::external_body]
fn requests_new() -> (requests: Requests)
    ensures
        requests_of(requests).dom() == Set::<u64>::empty(),
{
    Requests { inner: slotmap::SlotMap::default() }
}

/// `SlotMap::len` counts elements.
#[verifier::external_body]
fn requests_len(requests: &Requests) -> (len: usize)
    ensures
        len == requests_of(*requests).dom().len(),
{
    requests.inner.len()
}

/// `SlotMap::insert` stores the value under a new key: no stored value has it,
/// its version is odd, and it isn't the null key. It panics if there are too
/// many elements.
#[verifier::external_body]
fn requests_insert(requests: &mut Requests, data: RequestData) -> (key: u64)
    requires
        requests_of(*old(requests)).dom().len() < 0xffff_fffe,
    ensures
        !requests_of(*old(requests)).dom().contains(key),
        is_key(key),
        key % 0x1_0000_0000 != 0xffff_ffff,
        requests_of(*final(requests)) == requests_of(*old(requests)).insert(key, data),
{
    requests.inner.insert(data).data().as_ffi()
}

/// `SlotMap::remove` takes the value of the key out, `None` if there is no one.
#[verifier::external_body]
fn requests_remove(requests: &mut Requests, key: u64) -> (data: Option<RequestData>)
    requires
        is_key(key),
    ensures
        data == (if requests_of(*old(requests)).dom().contains(key) {
            Some(requests_of(*old(requests))[key])
        } else {
            None
        }),
        requests_of(*final(requests)) == requests_of(*old(requests)).remove(key),
{
    requests.inner.remove(slotmap::KeyData::from_ffi(key).into())
}

/// `SlotMap::get` returns the value of the key, `None` if there is no one.
#[verifier::external_body]
fn requests_get(requests: &Requests, key: u64) -> (data: Option<&RequestData>)
    requires
        is_key(key),
    ensures
        data == (if requests_of(*requests).dom().contains(key) {
            Some(&requests_of(*requests)[key])
        } else {
            None
        }),
{
    requests.inner.get(slotmap::KeyData::from_ffi(key).into())
}

/// `SlotMap::get_mut` lends the value of the key, `None` if there is no one.
/// Other values stay the same.
#[verifier::external_body]
fn requests_get_mut(requests: &mut Requests, key: u64) -> (data: Option<&mut RequestData>)
    requires
        is_key(key),
    ensures
        !requests_of(*old(requests)).dom().contains(key) ==> data is None && requests_of(
            *final(requests),
        ) == requests_of(*old(requests)),
        requests_of(*old(requests)).dom().contains(key) ==> {
            &&& data is Some
            &&& *data.unwrap() == requests_of(*old(requests))[key]
            &&& requests_of(*final(requests)) == requests_of(*old(requests)).insert(
                key,
                *final(data.unwrap()),
            )
        },
{
    requests.inner.get_mut(slotmap::KeyData::from_ffi(key).into())
}

/// Requests of one actor.
pub struct RequestTable {
    owner: Addr,
    requests: Requests,
}

impl View for RequestTable {
    type V = Map<u64, RequestState>;

    /// States of requests by raw forms of their ids.
    closed spec fn view(&self) -> Map<u64, RequestState> {
        requests_of(self.requests).map_values(|data: RequestData| data@)
    }
}

impl RequestTable {
    pub closed spec fn owner(&self) -> Addr {
        self.owner
    }

    #[verifier::type_invariant]
    closed spec fn inv(&self) -> bool {
        forall|key: u64| #[trigger]
            requests_of(self.requests).dom().contains(key) ==> requests_of(self.requests)[key]@.wf()
    }

    pub fn new(owner: Addr) -> (this: RequestTable)
        ensures
            this.owner() == owner,
            this@ == Map::<u64, RequestState>::empty(),
    {
        let this = RequestTable { owner, requests: requests_new() };
        assert(this@ =~= Map::<u64, RequestState>::empty());
        this
    }

    /// How many requests are waiting.
    pub fn len(&self) -> (len: usize)
        ensures
            len == self@.dom().len(),
    {
        assert(self@.dom() =~= requests_of(self.requests).dom());
        requests_len(&self.requests)
    }

    /// Whether there is such a request.
    pub fn contains(&self, request_id: RequestId) -> (res: bool)
        ensures
            res == self@.dom().contains(request_id.raw()),
    {
        assert(self@.dom() =~= requests_of(self.requests).dom());
        requests_get(&self.requests, request_id.to_ffi()).is_some()
    }

    /// Registers a new request, the returned token is to respond to it.
    pub fn new_request(&mut self, trace_id: TraceId, collect_all: bool) -> (token: ResponseToken)
        requires
            old(self).owner() != Addr::null(),
            old(self)@.dom().len() < 0xffff_fffe,
        ensures
            final(self).owner() == old(self).owner(),
            token.data matches Some(data) && {
                &&& data.sender == old(self).owner()
                &&& data.trace_id == trace_id
                &&& !data.request_id.spec_is_null()
                &&& !old(self)@.dom().contains(data.request_id.raw())
                &&& final(self)@ == old(self)@.insert(
                    data.request_id.raw(),
                    RequestState::init(collect_all),
                )
            },
            !token.received,
    {
        proof {
            use_type_invariant(&*self);
        }
        assert(self@.dom() =~= requests_of(self.requests).dom());
        let ghost old_requests = requests_of(self.requests);
        let data = RequestData::new(collect_all);
        let mut requests = requests_new();
        std::mem::swap(&mut self.requests, &mut requests);
        let key: u64 = requests_insert(&mut requests, data);
        self.requests = requests;
        let request_id = RequestId::from_ffi(key);
        assert(self@ =~= old(self)@.insert(key, RequestState::init(collect_all)));
        ResponseToken::new(self.owner, request_id, trace_id)
    }

    /// Forgets the request, its responses will be ignored.
    pub fn cancel_request(&mut self, request_id: RequestId)
        ensures
            final(self).owner() == old(self).owner(),
            final(self)@ == old(self)@.remove(request_id.raw()),
    {
        proof {
            use_type_invariant(&*self);
        }
        let mut requests = requests_new();
        std::mem::swap(&mut self.requests, &mut requests);
        let _ = requests_remove(&mut requests, request_id.to_ffi());
        self.requests = requests;
        assert(self@ =~= old(self)@.remove(request_id.raw()));
    }

    /// If the request is done, takes its responses out. It must be called again
    /// once any request becomes done.
    pub fn poll(&mut self, request_id: RequestId) -> (res: Option<Vec<Response>>)
        requires
            old(self)@.dom().contains(request_id.raw()),
        ensures
            final(self).owner() == old(self).owner(),
            ({
                let request = old(self)@[request_id.raw()];
                if request.remainder == 0 {
                    &&& res matches Some(responses) && responses@ == request.responses
                    &&& final(self)@ == old(self)@.remove(request_id.raw())
                } else {
                    &&& res is None
                    &&& final(self)@ == old(self)@
                }
            }),
    {
        proof {
            use_type_invariant(&*self);
        }
        assert(self@.dom() =~= requests_of(self.requests).dom());
        let key: u64 = request_id.to_ffi();
        let is_done = match requests_get(&self.requests, key) {
            Some(request) => request.remainder == 0,
            None => false,
        };

        if !is_done {
            return None;
        }

        let mut requests = requests_new();
        std::mem::swap(&mut self.requests, &mut requests);
        let request = requests_remove(&mut requests, key);
        self.requests = requests;
        assert(self@ =~= old(self)@.remove(request_id.raw()));
        match request {
            Some(request) => Some(responses_into_vec(request.responses)),
            None => None,
        }
    }

    /// Whether the token can be resolved with the response.
    pub open spec fn can_resolve(&self, token: ResponseToken, response: Response) -> bool {
        token.data matches Some(data) ==> self@.dom().contains(data.request_id.raw())
            ==> self@[data.request_id.raw()].can_push(response)
    }

    /// Whether the token can be resolved with the response.
    pub fn is_resolvable(&self, token: &ResponseToken, response: &Response) -> (res: bool)
        ensures
            res == self.can_resolve(*token, *response),
    {
        assert(self@.dom() =~= requests_of(self.requests).dom());
        match token.data {
            Some(data) => match requests_get(&self.requests, data.request_id.to_ffi()) {
                Some(request) => request.is_pushable(response),
                None => true,
            },
            None => true,
        }
    }

    /// States after the response.
    pub open spec fn resolved(&self, token: ResponseToken, response: Response) -> Map<
        u64,
        RequestState,
    > {
        match token.data {
            Some(data) => if self@.dom().contains(data.request_id.raw()) {
                self@.insert(
                    data.request_id.raw(),
                    self@[data.request_id.raw()].pushed(response),
                )
            } else {
                self@
            },
            None => self@,
        }
    }

    /// Whether the response is the last one that the request is waiting for.
    pub open spec fn becomes_done(&self, token: ResponseToken, response: Response) -> bool {
        &&& token.data matches Some(data)
        &&& self@.dom().contains(data.request_id.raw())
        &&& self@[data.request_id.raw()].remainder > 0
        &&& self@[data.request_id.raw()].pushed(response).remainder == 0
    }

    /// Delivers a response. Returns `true` if the request becomes done, then all
    /// waiters should be woken up.
    pub fn resolve(&mut self, token: ResponseToken, response: Response) -> (is_done: bool)
        requires
            old(self).can_resolve(token, response),
        ensures
            final(self).owner() == old(self).owner(),
            final(self)@ == old(self).resolved(token, response),
            is_done == old(self).becomes_done(token, response),
    {
        proof {
            use_type_invariant(&*self);
        }
        assert(self@.dom() =~= requests_of(self.requests).dom());
        // Do nothing for forgotten tokens.
        let data = match token.data {
            Some(data) => data,
            None => return false,
        };

        let mut requests = requests_new();
        std::mem::swap(&mut self.requests, &mut requests);
        let is_done = resolve_in(&mut requests, data.request_id.to_ffi(), response);
        self.requests = requests;
        assert(self@ =~= old(self).resolved(token, response));
        is_done
    }

    /// Expects one more response to the request. Returns `false` if there is no
    /// such request.
    pub fn expect_one_more(&mut self, request_id: RequestId) -> (res: bool)
        requires
            old(self)@.dom().contains(request_id.raw()) ==> old(self)@[request_id.raw()].remainder < usize::MAX,
        ensures
            final(self).owner() == old(self).owner(),
            res == old(self)@.dom().contains(request_id.raw()),
            final(self)@ == (if res {
                old(self)@.insert(
                    request_id.raw(),
                    old(self)@[request_id.raw()].expecting_one_more(),
                )
            } else {
                old(self)@
            }),
    {
        proof {
            use_type_invariant(&*self);
        }
        assert(self@.dom() =~= requests_of(self.requests).dom());
        let mut requests = requests_new();
        std::mem::swap(&mut self.requests, &mut requests);
        let res = expect_one_more_in(&mut requests, request_id.to_ffi());
        self.requests = requests;
        assert(self@ =~= if res {
            old(self)@.insert(
                request_id.raw(),
                old(self)@[request_id.raw()].expecting_one_more(),
            )
        } else {
            old(self)@
        });
        res
    }
}

impl RequestState {
    /// The state once one more response is expected.
    pub open spec fn expecting_one_more(self) -> RequestState {
        RequestState { remainder: self.remainder + 1, ..self }
    }
}

/// `None` here means the request was with `collect_all = false` and
/// the response has been received already.
fn resolve_in(requests: &mut Requests, key: u64, response: Response) -> (is_done: bool)
    requires
        is_key(key),
        requests_of(*old(requests)).dom().contains(key) ==> {
            &&& requests_of(*old(requests))[key]@.wf()
            &&& requests_of(*old(requests))[key]@.can_push(response)
        },
    ensures
        !requests_of(*old(requests)).dom().contains(key) ==> {
            &&& !is_done
            &&& requests_of(*final(requests)) == requests_of(*old(requests))
        },
        requests_of(*old(requests)).dom().contains(key) ==> exists|data: RequestData|
            {
                &&& data@ == requests_of(*old(requests))[key]@.pushed(response)
                &&& data@.wf()
                &&& requests_of(*final(requests)) == #[trigger] requests_of(*old(requests)).insert(
                    key,
                    data,
                )
                &&& is_done == (requests_of(*old(requests))[key]@.remainder > 0 && data@.remainder
                    == 0)
            },
{
    match requests_get_mut(requests, key) {
        Some(request) => request.push(response),
        None => false,
    }
}

fn expect_one_more_in(requests: &mut Requests, key: u64) -> (res: bool)
    requires
        is_key(key),
        requests_of(*old(requests)).dom().contains(key) ==> requests_of(
            *old(requests),
        )[key]@.remainder < usize::MAX && requests_of(*old(requests))[key]@.wf(),
    ensures
        res == requests_of(*old(requests)).dom().contains(key),
        !res ==> requests_of(*final(requests)) == requests_of(*old(requests)),
        res ==> exists|data: RequestData|
            {
                &&& data@ == requests_of(*old(requests))[key]@.expecting_one_more()
                &&& data@.wf()
                &&& requests_of(*final(requests)) == #[trigger] requests_of(*old(requests)).insert(
                    key,
                    data,
                )
            },
{
    match requests_get_mut(requests, key) {
        Some(request) => {
            request.remainder += 1;
            true
        },
        None => false,
    }
}

// === ResponseToken ===

/// The right to respond to a request, it's used up by responding.
#[derive(Debug, PartialEq, Eq, Structural)]
pub struct ResponseToken {
    /// `None` if forgotten.
    pub data: Option<ResponseTokenData>,
    pub received: bool,
}

#[derive(Debug, Clone, Copy, PartialEq, Eq, Structural)]
pub struct ResponseTokenData {
    pub sender: Addr,
    pub request_id: RequestId,
    pub trace_id: TraceId,
}

impl ResponseToken {
    pub fn new(sender: Addr, request_id: RequestId, trace_id: TraceId) -> (this: ResponseToken)
        requires
            sender != Addr::null(),
            !request_id.spec_is_null(),
        ensures
            this.data == Some(ResponseTokenData { sender, request_id, trace_id }),
            !this.received,
    {
        ResponseToken {
            data: Some(ResponseTokenData { sender, request_id, trace_id }),
            received: false,
        }
    }

    pub open spec fn spec_is_forgotten(&self) -> bool {
        self.data is None
    }

    pub fn trace_id(&self) -> (trace_id: TraceId)
        requires
            !self.spec_is_forgotten(),
        ensures
            trace_id == self.data->0.trace_id,
    {
        self.data.unwrap().trace_id
    }

    pub fn sender(&self) -> (sender: Addr)
        requires
            !self.spec_is_forgotten(),
        ensures
            sender == self.data->0.sender,
    {
        self.data.unwrap().sender
    }

    pub open spec fn spec_sender(&self) -> Addr {
        match self.data {
            Some(data) => data.sender,
            None => Addr::spec_null(),
        }
    }

    /// The null address if the token is forgotten.
    pub fn sender_or_null(&self) -> (sender: Addr)
        ensures
            sender == self.spec_sender(),
    {
        match self.data {
            Some(data) => data.sender,
            None => Addr::null(),
        }
    }

    pub fn request_id(&self) -> (request_id: RequestId)
        requires
            !self.spec_is_forgotten(),
        ensures
            request_id == self.data->0.request_id,
    {
        self.data.unwrap().request_id
    }

    /// Whether it's the last token, `owners` is how many ones share the request.
    pub fn is_last(&self, owners: usize) -> (res: bool)
        requires
            !self.spec_is_forgotten(),
        ensures
            res == (owners <= 1),
    {
        owners <= 1
    }

    pub fn into_received(self) -> (this: ResponseToken)
        ensures
            this.data == self.data,
            this.received,
    {
        ResponseToken { data: self.data, received: true }
    }

    pub fn into_untyped(self) -> (this: ResponseToken)
        ensures
            this == self,
    {
        ResponseToken { data: self.data, received: self.received }
    }

    pub fn forget(self) -> (this: ResponseToken)
        ensures
            this.spec_is_forgotten(),
            this.received == self.received,
    {
        ResponseToken { data: None, received: self.received }
    }

    pub fn forgotten() -> (this: ResponseToken)
        ensures
            this.spec_is_forgotten(),
            !this.received,
    {
        ResponseToken { data: None, received: false }
    }

    pub fn is_forgotten(&self) -> (res: bool)
        ensures
            res == self.spec_is_forgotten(),
    {
        self.data.is_none()
    }

    /// How the request is resolved if the token is dropped.
    pub open spec fn spec_drop_error(&self) -> RequestError {
        if self.received {
            RequestError::Ignored
        } else {
            RequestError::Failed
        }
    }

    /// How the request is resolved if the token is dropped. Nothing is done for
    /// forgotten tokens.
    pub fn drop_error(&self) -> (res: Option<RequestError>)
        ensures
            res == (if self.spec_is_forgotten() {
                None
            } else {
                Some(self.spec_drop_error())
            }),
    {
        if self.data.is_none() {
            return None;
        }

        Some(
            if self.received {
                RequestError::Ignored
            } else {
                RequestError::Failed
            },
        )
    }

    /// Whether a copy belongs to the same request. The copy of a token whose
    /// request isn't found is forgotten.
    pub open spec fn is_copied_to(&self, copy: ResponseToken) -> bool {
        &&& copy.received == self.received
        &&& copy.data == self.data || copy.data is None
    }

    pub open spec fn can_be_duplicated(&self, table: Option<&mut RequestTable>) -> bool {
        table matches Some(table) ==> self.data matches Some(data) ==> data.sender.spec_is_local()
            ==> table@.dom().contains(data.request_id.raw())
            ==> table@[data.request_id.raw()].remainder < usize::MAX
    }

    /// What a copy holds if there is no table: a local sender doesn't exist anymore,
    /// tables of remote ones are on their nodes.
    pub open spec fn data_without_table(&self) -> Option<ResponseTokenData> {
        match self.data {
            Some(data) => if data.sender.spec_is_local() {
                None
            } else {
                Some(data)
            },
            None => None,
        }
    }

    /// What happens with the table of the sender.
    pub open spec fn duplicated_in(
        &self,
        before: Map<u64, RequestState>,
        after: Map<u64, RequestState>,
        copy: ResponseToken,
    ) -> bool {
        match self.data {
            Some(data) if data.sender.spec_is_local() => if before.dom().contains(
                data.request_id.raw(),
            ) {
                &&& copy == *self
                &&& after == before.insert(
                    data.request_id.raw(),
                    before[data.request_id.raw()].expecting_one_more(),
                )
            } else {
                &&& copy.data is None
                &&& after == before
            },
            _ => {
                &&& copy == *self
                &&& after == before
            },
        }
    }

    /// Makes a copy, so the requester waits for one more response. `table` is
    /// the request table of the sender if it's a local actor that still exists.
    pub fn duplicate(&self, table: Option<&mut RequestTable>) -> (copy: ResponseToken)
        requires
            self.can_be_duplicated(table),
        ensures
            self.is_copied_to(copy),
            table is None ==> copy.data == self.data_without_table(),
            table matches Some(table) ==> {
                &&& self.duplicated_in(table@, final(table)@, copy)
                &&& final(table).owner() == table.owner()
            },
    {
        let data = match self.data {
            Some(data) => data,
            None => return ResponseToken { data: None, received: self.received },
        };

        if data.sender.is_local() {
            let is_found = match table {
                Some(table) => table.expect_one_more(data.request_id),
                None => false,
            };
            if !is_found {
                return ResponseToken { data: None, received: self.received };
            }
        }

        ResponseToken { data: Some(data), received: self.received }
    }
}

// === Laws ===

/// The first successful response.
pub open spec fn first_ok(responses: Seq<Response>) -> Option<Response>
    decreases responses.len(),
{
    if responses.len() == 0 {
        None
    } else {
        match first_ok(responses.drop_last()) {
            Some(response) => Some(response),
            None => if responses.last() is Ok {
                Some(responses.last())
            } else {
                None
            },
        }
    }
}

/// A request for all responses is done exactly when all of them have come, and
/// holds them in the order of coming.
pub proof fn all_responses_are_collected(expected: nat, responses: Seq<Response>)
    requires
        responses.len() <= expected,
    ensures
        (RequestState {
            remainder: expected,
            responses: Seq::empty(),
            collect_all: true,
        }).pushed_all(responses) == (RequestState {
            remainder: (expected - responses.len()) as nat,
            responses,
            collect_all: true,
        }),
    decreases responses.len(),
{
    if responses.len() == 0 {
        assert(responses =~= Seq::empty());
    } else {
        all_responses_are_collected(expected, responses.drop_last());
        assert(responses.drop_last().push(responses.last()) =~= responses);
    }
}

/// A request for any response is done by the first successful response and
/// holds it. If there are only failures, it's done when all of them have come
/// and says whether the request is ignored by at least one recipient.
pub proof fn best_response_is_kept(expected: nat, responses: Seq<Response>)
    requires
        0 < responses.len() <= expected,
    ensures
        ({
            let state = (RequestState {
                remainder: expected,
                responses: Seq::empty(),
                collect_all: false,
            }).pushed_all(responses);
            &&& !state.collect_all
            &&& match first_ok(responses) {
                Some(response) => state.remainder == 0 && state.responses == seq![response],
                None => {
                    let error = if responses.contains(Err(RequestError::Ignored)) {
                        RequestError::Ignored
                    } else {
                        RequestError::Failed
                    };
                    &&& state.remainder == expected - responses.len()
                    &&& state.responses == seq![Err::<Envelope, RequestError>(error)]
                },
            }
        }),
    decreases responses.len(),
{
    let rest = responses.drop_last();
    let ignored: Response = Err(RequestError::Ignored);
    let init = RequestState { remainder: expected, responses: Seq::empty(), collect_all: false };
    let last = responses.last();
    assert(init.pushed_all(responses) == init.pushed_all(rest).pushed(last));
    assert(responses =~= rest.push(last));
    if rest.len() > 0 {
        best_response_is_kept(expected, rest);
    } else {
        assert(init.pushed_all(rest) == init);
        assert(first_ok(rest) is None);
    }
    let before = init.pushed_all(rest);
    let after = before.pushed(last);
    if first_ok(rest) is Some {
        assert(after == before);
        assert(first_ok(responses) == first_ok(rest));
    } else if last is Ok {
        assert(before.remainder > 0);
        assert(first_ok(responses) == Some(last));
        assert(after.remainder == 0);
    } else {
        assert(first_ok(responses) is None);
        assert(after.remainder == expected - responses.len());
        if last == ignored {
            assert(responses[responses.len() - 1] == ignored);
            assert(responses.contains(ignored));
            assert(after.responses == seq![ignored]);
        } else {
            assert(last->Err_0 is Failed || last->Err_0 is Ignored);
            if rest.contains(ignored) {
                let i = choose|i: int| 0 <= i < rest.len() && rest[i] == ignored;
                assert(responses[i] == ignored);
            }
            if responses.contains(ignored) {
                let i = choose|i: int| 0 <= i < responses.len() && responses[i] == ignored;
                assert(rest[i] == ignored);
            }
            assert(responses.contains(ignored) == rest.contains(ignored));
        }
    }
}

/// Once a request for any response is done, responses are ignored.
pub proof fn late_responses_are_ignored(state: RequestState, response: Response)
    requires
        state.remainder == 0,
    ensures
        state.pushed(response) == state,
{
}

/// A duplicated token means one more response.
pub proof fn every_token_is_counted(state: RequestState, response: Response)
    requires
        state.collect_all || response is Err,
    ensures
        state.expecting_one_more().pushed(response).remainder == state.remainder,
{
}

/// An id is restored from its raw form. The null one has all bits set in the low half.
pub proof fn ids_are_restored(id: RequestId, raw: u64, restored: RequestId, is_null: bool)
    requires
        call_ensures(RequestId::to_ffi, (id,), raw),
        call_ensures(RequestId::from_ffi, (raw,), restored),
        call_ensures(RequestId::is_null, (&id,), is_null),
    ensures
        restored.raw() == id.raw() && raw == id.raw(),
        is_null <==> raw % 0x1_0000_0000 == u32::MAX,
{
}

/// How a response changes a request. One that waits for all responses collects them in
/// order. One that waits for any response keeps the best one: a successful one, then an
/// ignored one, then a failed one, and the first successful one ends it.
pub proof fn responses_are_collected(
    data: &mut RequestData,
    response: Response,
    is_done: bool,
    fresh: RequestData,
    collect_all: bool,
    is_pushable: bool,
)
    requires
        call_ensures(RequestData::new, (collect_all,), fresh),
        call_ensures(RequestData::is_pushable, (old(data), &response), is_pushable),
        call_ensures(RequestData::push, (data, response), is_done),
    ensures
        fresh.remainder == 1 && responses_of(fresh.responses).len() == 0 && fresh.collect_all
            == collect_all,
        final(data).collect_all == old(data).collect_all,
        ({
            let before = responses_of(old(data).responses);
            let after = responses_of(final(data).responses);
            &&& old(data).remainder == 0 ==> after == before && final(data).remainder == 0
                && !is_done
            &&& old(data).remainder > 0 && old(data).collect_all ==> {
                &&& after == before.push(response)
                &&& final(data).remainder == old(data).remainder - 1
            }
            &&& old(data).remainder > 0 && !old(data).collect_all && response is Ok ==> {
                &&& after.len() == 1 && after[0] == response
                &&& final(data).remainder == 0
            }
            &&& old(data).remainder > 0 && !old(data).collect_all && response is Err ==> {
                &&& final(data).remainder == old(data).remainder - 1
                &&& response->Err_0 is Ignored || before.len() == 0 ==> after.len() == 1
                    && after[0] == response
                &&& response->Err_0 is Failed && before.len() > 0 ==> after == before
            }
            &&& old(data).remainder > 0 ==> (is_done <==> final(data).remainder == 0)
            &&& is_pushable <==> {
                ||| old(data).remainder == 0 && !old(data).collect_all
                ||| old(data).remainder > 0 && old(data).collect_all
                ||| old(data).remainder > 0 && before.len() == 0
                ||| old(data).remainder > 0 && before[0] is Err
                ||| old(data).remainder > 0 && response == Err::<Envelope, RequestError>(
                    RequestError::Failed,
                )
            }
        }),
{
    assert(old(data)@.collect_all == old(data).collect_all);
    assert(old(data)@.remainder == old(data).remainder);
    assert(final(data)@.remainder == final(data).remainder);
    assert(old(data)@.responses == responses_of(old(data).responses));
    assert(final(data)@.responses == responses_of(final(data).responses));
    assert(final(data)@.collect_all == final(data).collect_all);
}

/// A request is done once it's responded, and its response is taken out only once. Other
/// requests aren't affected.
pub proof fn response_reaches_requester(
    owner: Addr,
    fresh: RequestTable,
    table: &mut RequestTable,
    early: &mut RequestTable,
    resolving: &mut RequestTable,
    polling: &mut RequestTable,
    trace_id: TraceId,
    collect_all: bool,
    token: ResponseToken,
    response: Response,
    is_done: bool,
    not_yet: Option<Vec<Response>>,
    res: Option<Vec<Response>>,
    other: u64,
    before: usize,
    during: usize,
    after: usize,
    is_known: bool,
    is_forgotten: bool,
)
    requires
        call_ensures(RequestTable::new, (owner,), fresh),
        old(table)@.dom().finite(),
        call_ensures(RequestTable::len, (old(table),), before),
        call_ensures(RequestTable::new_request, (table, trace_id, collect_all), token),
        call_ensures(RequestTable::len, (final(table),), during),
        *old(early) == *final(table),
        call_ensures(RequestTable::poll, (early, token.data->0.request_id), not_yet),
        *old(resolving) == *final(table),
        call_ensures(RequestTable::resolve, (resolving, token, response), is_done),
        *old(polling) == *final(resolving),
        call_ensures(RequestTable::poll, (polling, token.data->0.request_id), res),
        call_ensures(RequestTable::len, (final(polling),), after),
        call_ensures(RequestTable::contains, (final(table), token.data->0.request_id), is_known),
        call_ensures(
            RequestTable::contains,
            (final(polling), token.data->0.request_id),
            is_forgotten,
        ),
    ensures
        fresh.owner() == owner && fresh@.dom().len() == 0,
        token.data is Some && token.data->0.sender == old(table).owner() && token.data->0.trace_id
            == trace_id && !token.received,
        during == before + 1 && after == before,
        is_known && !is_forgotten,
        not_yet is None,
        is_done,
        res is Some && res->0@.len() == 1 && res->0@[0] == response,
        other != token.data->0.request_id.raw() ==> {
            &&& final(polling)@.dom().contains(other) <==> old(table)@.dom().contains(other)
            &&& old(table)@.dom().contains(other) ==> final(polling)@[other] == old(table)@[other]
        },
{
    let id = token.data->0.request_id.raw();
    assert(final(polling)@.dom() =~= old(table)@.dom());
}

/// A copy of a token is one more right to respond, so the request is done only once both
/// have responded. Responses to a request for all of them come in order.
pub proof fn every_copy_must_respond(
    table: &mut RequestTable,
    copying: &mut RequestTable,
    first: &mut RequestTable,
    second: &mut RequestTable,
    polling: &mut RequestTable,
    trace_id: TraceId,
    token: ResponseToken,
    copy: ResponseToken,
    a: Response,
    b: Response,
    x: bool,
    y: bool,
    res: Option<Vec<Response>>,
)
    requires
        call_ensures(RequestTable::new_request, (table, trace_id, true), token),
        old(table).owner().bits < 0x1_0000_0000_0000,
        *old(copying) == *final(table),
        call_ensures(ResponseToken::duplicate, (&token, Some(copying)), copy),
        *old(first) == *final(copying),
        call_ensures(RequestTable::resolve, (first, token, a), x),
        *old(second) == *final(first),
        call_ensures(RequestTable::resolve, (second, copy, b), y),
        *old(polling) == *final(second),
        call_ensures(RequestTable::poll, (polling, token.data->0.request_id), res),
    ensures
        copy == token,
        !x && y,
        res is Some && res->0@.len() == 2 && res->0@[0] == a && res->0@[1] == b,
{
}

/// A response to a cancelled request is ignored, and a token of a request that doesn't
/// exist is forgotten once it's copied.
pub proof fn cancelled_request_is_forgotten(
    table: &mut RequestTable,
    cancelling: &mut RequestTable,
    resolving: &mut RequestTable,
    copying: &mut RequestTable,
    trace_id: TraceId,
    collect_all: bool,
    token: ResponseToken,
    response: Response,
    is_done: bool,
    copy: ResponseToken,
    alone: ResponseToken,
    other: u64,
)
    requires
        call_ensures(RequestTable::new_request, (table, trace_id, collect_all), token),
        old(table).owner().bits < 0x1_0000_0000_0000,
        *old(cancelling) == *final(table),
        call_ensures(
            RequestTable::cancel_request,
            (cancelling, token.data->0.request_id),
            (),
        ),
        *old(resolving) == *final(cancelling),
        call_ensures(RequestTable::resolve, (resolving, token, response), is_done),
        *old(copying) == *final(cancelling),
        call_ensures(ResponseToken::duplicate, (&token, Some(copying)), copy),
        call_ensures(ResponseToken::duplicate, (&token, None), alone),
    ensures
        !is_done && final(resolving)@ == final(cancelling)@,
        copy.data is None && final(copying)@ == final(cancelling)@,
        alone.data is None,
        other != token.data->0.request_id.raw() ==> {
            &&& final(cancelling)@.dom().contains(other) <==> old(table)@.dom().contains(other)
            &&& old(table)@.dom().contains(other) ==> final(cancelling)@[other]
                == old(table)@[other]
        },
{
}

/// Requests of remote actors are counted on their nodes, so their tokens are copied as is.
pub proof fn remote_tokens_are_copied(token: ResponseToken, copy: ResponseToken)
    requires
        token.data is Some,
        token.data->0.sender.bits >= 0x1_0000_0000_0000,
        call_ensures(ResponseToken::duplicate, (&token, None), copy),
    ensures
        copy == token,
{
}

/// A dropped token tells whether the request has been received. A forgotten one tells
/// nothing.
pub proof fn dropped_token_tells_why(
    sender: Addr,
    request_id: RequestId,
    trace_id: TraceId,
    token: ResponseToken,
    received: ResponseToken,
    untyped: ResponseToken,
    forgotten: ResponseToken,
    nobody: ResponseToken,
    a: Option<RequestError>,
    b: Option<RequestError>,
    c: Option<RequestError>,
    d: bool,
    e: bool,
    f: bool,
)
    requires
        call_ensures(ResponseToken::new, (sender, request_id, trace_id), token),
        call_ensures(ResponseToken::into_received, (token,), received),
        call_ensures(ResponseToken::into_untyped, (received,), untyped),
        call_ensures(ResponseToken::forget, (untyped,), forgotten),
        call_ensures(ResponseToken::forgotten, (), nobody),
        call_ensures(ResponseToken::drop_error, (&token,), a),
        call_ensures(ResponseToken::drop_error, (&untyped,), b),
        call_ensures(ResponseToken::drop_error, (&forgotten,), c),
        call_ensures(ResponseToken::is_forgotten, (&untyped,), d),
        call_ensures(ResponseToken::is_forgotten, (&forgotten,), e),
        call_ensures(ResponseToken::is_forgotten, (&nobody,), f),
    ensures
        a == Some(RequestError::Failed),
        b == Some(RequestError::Ignored),
        c is None,
        !d && e && f,
        received.data == token.data && untyped == received,
{
}

/// A token knows whom and what it responds to.
pub proof fn token_knows_request(
    sender: Addr,
    request_id: RequestId,
    trace_id: TraceId,
    token: ResponseToken,
    forgotten: ResponseToken,
    owners: usize,
    a: Addr,
    b: RequestId,
    c: TraceId,
    d: Addr,
    e: Addr,
    is_last: bool,
)
    requires
        call_ensures(ResponseToken::new, (sender, request_id, trace_id), token),
        call_ensures(ResponseToken::forgotten, (), forgotten),
        call_ensures(ResponseToken::sender, (&token,), a),
        call_ensures(ResponseToken::request_id, (&token,), b),
        call_ensures(ResponseToken::trace_id, (&token,), c),
        call_ensures(ResponseToken::sender_or_null, (&token,), d),
        call_ensures(ResponseToken::sender_or_null, (&forgotten,), e),
        call_ensures(ResponseToken::is_last, (&token, owners), is_last),
    ensures
        a == sender && b == request_id && c == trace_id && d == sender,
        e.bits == 0,
        is_last <==> owners <= 1,
{
}

/// Whether a token can be resolved depends on its request only: any token of a request
/// that doesn't exist can.
pub proof fn resolvable_iff_request_accepts(
    table: RequestTable,
    token: ResponseToken,
    response: Response,
    res: bool,
    is_known: bool,
)
    requires
        call_ensures(RequestTable::is_resolvable, (&table, &token, &response), res),
        token.data is Some,
        call_ensures(RequestTable::contains, (&table, token.data->0.request_id), is_known),
    ensures
        !is_known ==> res,
        is_known ==> ({
            let state = table@[token.data->0.request_id.raw()];
            res <==> {
                ||| state.remainder == 0 && !state.collect_all
                ||| state.remainder > 0 && state.collect_all
                ||| state.remainder > 0 && state.responses.len() == 0
                ||| state.remainder > 0 && state.responses[0] is Err
                ||| state.remainder > 0 && response == Err::<Envelope, RequestError>(
                    RequestError::Failed,
                )
            }
        }),
{
}

/// One more response is expected only by a request that exists.
pub proof fn one_more_response_is_expected(
    table: &mut RequestTable,
    request_id: RequestId,
    is_known: bool,
    res: bool,
    other: u64,
)
    requires
        call_ensures(RequestTable::contains, (old(table), request_id), is_known),
        call_ensures(RequestTable::expect_one_more, (table, request_id), res),
    ensures
        res == is_known,
        is_known ==> {
            let before = old(table)@[request_id.raw()];
            let after = final(table)@[request_id.raw()];
            &&& after.remainder == before.remainder + 1
            &&& after.responses == before.responses && after.collect_all == before.collect_all
        },
        other != request_id.raw() && old(table)@.dom().contains(other) ==> final(table)@[other]
            == old(table)@[other],
        final(table)@.dom() == old(table)@.dom(),
{
    assert(final(table)@.dom() =~= old(table)@.dom());
}

/// A token of nobody isn't a received one.
pub proof fn token_of_nobody_is_not_received(nobody: ResponseToken)
    requires
        call_ensures(ResponseToken::forgotten, (), nobody),
    ensures
        nobody.data is None && !nobody.received,
{
}

} // verus!
