//! The key-value service as calls: the stub that a client builds its
//! calls with, the handlers that a node offers, and the routing of a call
//! to its handler.

use vstd::prelude::*;
use crate::common::{DeleteReq, GetReq, PutReq, Request};
use crate::kv_server::Msg;

verus! {

/// The three methods of the service.
#[derive(Clone, Copy, Debug, PartialEq, Eq, Structural)]
pub enum Method {
    Get,
    Put,
    Delete,
}

impl Method {
    /// The name of the method on the wire.
    pub open spec fn path(self) -> Seq<char> {
        match self {
            Method::Get => "/meteora.kv.KvService/Get"@,
            Method::Put => "/meteora.kv.KvService/Put"@,
            Method::Delete => "/meteora.kv.KvService/Delete"@,
        }
    }

    /// The name of the method on the wire.
    pub fn name(self) -> (r: &'static str)
        ensures
            r@ == self.path(),
    {
        match self {
            Method::Get => "/meteora.kv.KvService/Get",
            Method::Put => "/meteora.kv.KvService/Put",
            Method::Delete => "/meteora.kv.KvService/Delete",
        }
    }
}

/// The method that serves a request.
pub open spec fn method_of(request: Request) -> Method {
    match request {
        Request::Get(_) => Method::Get,
        Request::Put(_) => Method::Put,
        Request::Delete(_) => Method::Delete,
    }
}

/// How a call is made.
#[derive(Clone, Copy, Debug)]
pub struct CallOption {
    /// The time the call may take, in milliseconds; no limit where absent.
    pub timeout_millis: Option<u64>,
}

impl Default for CallOption {
    fn default() -> (r: CallOption)
        ensures
            r.timeout_millis is None,
    {
        CallOption { timeout_millis: None }
    }
}

/// A call, ready to be sent.
#[derive(Debug)]
pub struct RpcCall {
    /// The address of the node to call.
    pub address: String,
    pub method: Method,
    pub request: Request,
    pub option: CallOption,
    /// Whether the caller waits for the answer, or takes a receiver for it.
    pub blocking: bool,
}

/// The key of a request.
pub open spec fn key_of(request: Request) -> Seq<u8> {
    match request {
        Request::Get(r) => r.key@,
        Request::Put(r) => r.key@,
        Request::Delete(r) => r.key@,
    }
}

/// The value of a request: a write has one.
pub open spec fn value_of(request: Request) -> Option<Seq<u8>> {
    match request {
        Request::Put(r) => Some(r.value@),
        _ => None,
    }
}

impl RpcCall {
    /// The call goes to `address`, by `method`, with the key and the
    /// value given, made as `option` and `blocking` say.
    pub open spec fn carries(
        self,
        address: Seq<char>,
        method: Method,
        key: Seq<u8>,
        value: Option<Seq<u8>>,
        option: CallOption,
        blocking: bool,
    ) -> bool {
        &&& self.address@ == address
        &&& self.method == method
        &&& method_of(self.request) == method
        &&& key_of(self.request) == key
        &&& value_of(self.request) == value
        &&& self.option == option
        &&& self.blocking == blocking
    }
}

fn copy_bytes(bytes: &Vec<u8>) -> (r: Vec<u8>)
    ensures
        r@ == bytes@,
{
    let mut out: Vec<u8> = Vec::new();
    let mut i: usize = 0;
    while i < bytes.len()
        invariant
            i <= bytes.len(),
            out@ == bytes@.take(i as int),
        decreases bytes.len() - i,
    {
        out.push(bytes[i]);
        assert(bytes@.take(i as int + 1) =~= bytes@.take(i as int).push(bytes@[i as int]));
        i += 1;
    }
    assert(bytes@.take(i as int) =~= bytes@);
    out
}

/// The stub of the key-value service of one node: it builds the calls to
/// that node.
#[derive(Clone, Debug)]
pub struct KvServiceClient {
    address: String,
}

impl KvServiceClient {
    /// The address of the node.
    pub closed spec fn target(&self) -> Seq<char> {
        self.address@
    }

    /// The stub for the node at `address`.
    pub fn new(address: String) -> (client: KvServiceClient)
        ensures
            client.target() == address@,
    {
        KvServiceClient { address }
    }

    /// The address of the node.
    pub fn address(&self) -> (r: String)
        ensures
            r@ == self.target(),
    {
        self.address.clone()
    }

    /// A read of the key of `req`, made as `opt` says, for whose answer
    /// the caller waits.
    pub fn get_opt(&self, req: &GetReq, opt: CallOption) -> (call: RpcCall)
        ensures
            call.carries(self.target(), Method::Get, req.key@, None, opt, true),
    {
        RpcCall {
            address: self.address.clone(),
            method: Method::Get,
            request: Request::Get(GetReq { key: copy_bytes(&req.key) }),
            option: opt,
            blocking: true,
        }
    }

    /// A read made with the default options.
    pub fn get(&self, req: &GetReq) -> (call: RpcCall)
        ensures
            call.carries(self.target(), Method::Get, req.key@, None, (CallOption { timeout_millis: None }), true),
    {
        self.get_opt(req, CallOption::default())
    }

    /// A read for whose answer the caller takes a receiver.
    pub fn get_async_opt(&self, req: &GetReq, opt: CallOption) -> (call: RpcCall)
        ensures
            call.carries(self.target(), Method::Get, req.key@, None, opt, false),
    {
        let mut call = self.get_opt(req, opt);
        call.blocking = false;
        call
    }

    /// A read with the default options, for whose answer the caller takes
    /// a receiver.
    pub fn get_async(&self, req: &GetReq) -> (call: RpcCall)
        ensures
            call.carries(self.target(), Method::Get, req.key@, None, (CallOption { timeout_millis: None }), false),
    {
        self.get_async_opt(req, CallOption::default())
    }

    /// A write of the value of `req` under its key, made as `opt` says,
    /// for whose answer the caller waits.
    pub fn put_opt(&self, req: &PutReq, opt: CallOption) -> (call: RpcCall)
        ensures
            call.carries(self.target(), Method::Put, req.key@, Some(req.value@), opt, true),
    {
        RpcCall {
            address: self.address.clone(),
            method: Method::Put,
            request: Request::Put(PutReq { key: copy_bytes(&req.key), value: copy_bytes(&req.value) }),
            option: opt,
            blocking: true,
        }
    }

    /// A write made with the default options.
    pub fn put(&self, req: &PutReq) -> (call: RpcCall)
        ensures
            call.carries(
                self.target(),
                Method::Put,
                req.key@,
                Some(req.value@),
                (CallOption { timeout_millis: None }),
                true,
            ),
    {
        self.put_opt(req, CallOption::default())
    }

    /// A write for whose answer the caller takes a receiver.
    pub fn put_async_opt(&self, req: &PutReq, opt: CallOption) -> (call: RpcCall)
        ensures
            call.carries(self.target(), Method::Put, req.key@, Some(req.value@), opt, false),
    {
        let mut call = self.put_opt(req, opt);
        call.blocking = false;
        call
    }

    /// A write with the default options, for whose answer the caller
    /// takes a receiver.
    pub fn put_async(&self, req: &PutReq) -> (call: RpcCall)
        ensures
            call.carries(
                self.target(),
                Method::Put,
                req.key@,
                Some(req.value@),
                (CallOption { timeout_millis: None }),
                false,
            ),
    {
        self.put_async_opt(req, CallOption::default())
    }

    /// A removal of the key of `req`, made as `opt` says, for whose answer
    /// the caller waits.
    pub fn delete_opt(&self, req: &DeleteReq, opt: CallOption) -> (call: RpcCall)
        ensures
            call.carries(self.target(), Method::Delete, req.key@, None, opt, true),
    {
        RpcCall {
            address: self.address.clone(),
            method: Method::Delete,
            request: Request::Delete(DeleteReq { key: copy_bytes(&req.key) }),
            option: opt,
            blocking: true,
        }
    }

    /// A removal made with the default options.
    pub fn delete(&self, req: &DeleteReq) -> (call: RpcCall)
        ensures
            call.carries(self.target(), Method::Delete, req.key@, None, (CallOption { timeout_millis: None }), true),
    {
        self.delete_opt(req, CallOption::default())
    }

    /// A removal for whose answer the caller takes a receiver.
    pub fn delete_async_opt(&self, req: &DeleteReq, opt: CallOption) -> (call: RpcCall)
        ensures
            call.carries(self.target(), Method::Delete, req.key@, None, opt, false),
    {
        let mut call = self.delete_opt(req, opt);
        call.blocking = false;
        call
    }

    /// A removal with the default options, for whose answer the caller
    /// takes a receiver.
    pub fn delete_async(&self, req: &DeleteReq) -> (call: RpcCall)
        ensures
            call.carries(self.target(), Method::Delete, req.key@, None, (CallOption { timeout_millis: None }), false),
    {
        self.delete_async_opt(req, CallOption::default())
    }
}

/// The handlers of the key-value service. Each takes a call and says what
/// the node asks of its consensus engine before it answers.
pub trait KvService: Sized {
    /// The handler after a read came in, and what it asks.
    spec fn on_get(&self, req: GetReq) -> (Self, Msg);

    /// The handler after a write came in, and what it asks.
    spec fn on_put(&self, req: PutReq) -> (Self, Msg);

    /// The handler after a removal came in, and what it asks.
    spec fn on_delete(&self, req: DeleteReq) -> (Self, Msg);

    fn get(&mut self, req: GetReq) -> (msg: Msg)
        ensures
            (*final(self), msg) == old(self).on_get(req),
    ;

    fn put(&mut self, req: PutReq) -> (msg: Msg)
        ensures
            (*final(self), msg) == old(self).on_put(req),
    ;

    fn delete(&mut self, req: DeleteReq) -> (msg: Msg)
        ensures
            (*final(self), msg) == old(self).on_delete(req),
    ;
}

/// A service ready to take calls: it hands each to the handler of its
/// method.
#[derive(Debug)]
pub struct Service<S> {
    pub handler: S,
}

/// The handler after `request` came in, and what it asks.
pub open spec fn routed<S: KvService>(handler: S, request: Request) -> (S, Msg) {
    match request {
        Request::Get(req) => handler.on_get(req),
        Request::Put(req) => handler.on_put(req),
        Request::Delete(req) => handler.on_delete(req),
    }
}

impl<S: KvService> Service<S> {
    /// Hands a call to the handler of its method.
    pub fn call(&mut self, request: Request) -> (msg: Msg)
        ensures
            (final(self).handler, msg) == routed(old(self).handler, request),
    {
        match request {
            Request::Get(req) => self.handler.get(req),
            Request::Put(req) => self.handler.put(req),
            Request::Delete(req) => self.handler.delete(req),
        }
    }
}

/// Makes a service of the handlers `s`.
pub fn create_kv_service<S: KvService>(s: S) -> (service: Service<S>)
    ensures
        service.handler == s,
{
    Service { handler: s }
}

} // verus!
