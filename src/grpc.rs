//! The core of a dynamic RPC client: method lookup in a descriptor pool
//! fetched by reflection, the wire path of a method, and the bridge between
//! JSON text and dynamic messages.
use prost_reflect::{DescriptorPool, DynamicMessage, MessageDescriptor, MethodDescriptor, ServiceDescriptor};
use crate::text::{chars_of, string_from_chars};
use vstd::prelude::*;

verus! {

#[verifier::external_type_specification]
#[verifier::external_body]
pub struct ExDescriptorPool(DescriptorPool);

#[verifier::external_type_specification]
#[verifier::external_body]
pub struct ExServiceDescriptor(ServiceDescriptor);

#[verifier::external_type_specification]
#[verifier::external_body]
pub struct ExMethodDescriptor(MethodDescriptor);

#[verifier::external_type_specification]
#[verifier::external_body]
pub struct ExMessageDescriptor(MessageDescriptor);

#[verifier::external_type_specification]
#[verifier::external_body]
pub struct ExDynamicMessage(DynamicMessage);

#[verifier::external_type_specification]
#[verifier::external_body]
pub struct ExJsonError(serde_json::Error);

/// The kinds of failure of the client, each with a message for the user.
#[derive(Debug)]
pub enum GrpcError {
    ServiceNotFound(String),
    MethodNotFound(String),
    PayloadMismatch(String),
    WireDecodeError(String),
    TransportError(String),
    ReflectionFetchError(String),
}

impl GrpcError {
    /// The message carried by the error.
    pub fn message(&self) -> (r: String)
        ensures
            r@ == match self {
                GrpcError::ServiceNotFound(m) => m@,
                GrpcError::MethodNotFound(m) => m@,
                GrpcError::PayloadMismatch(m) => m@,
                GrpcError::WireDecodeError(m) => m@,
                GrpcError::TransportError(m) => m@,
                GrpcError::ReflectionFetchError(m) => m@,
            },
    {
        match self {
            GrpcError::ServiceNotFound(m) => m.clone(),
            GrpcError::MethodNotFound(m) => m.clone(),
            GrpcError::PayloadMismatch(m) => m.clone(),
            GrpcError::WireDecodeError(m) => m.clone(),
            GrpcError::TransportError(m) => m.clone(),
            GrpcError::ReflectionFetchError(m) => m.clone(),
        }
    }
}

/// What a descriptor pool holds: for every name under which
/// `get_service_by_name` finds a service (its full name, also with one leading
/// `.`), the names of that service's methods in declaration order.
pub uninterp spec fn pool_services(p: DescriptorPool) -> Map<Seq<char>, Seq<Seq<char>>>;

/// The full names of the services of a pool, in the order of the pool.
pub uninterp spec fn pool_service_order(p: DescriptorPool) -> Seq<Seq<char>>;

/// The service that `get_service_by_name` finds under `name`.
pub uninterp spec fn pool_service(p: DescriptorPool, name: Seq<char>) -> ServiceDescriptor;

/// The names of the methods of a service, in declaration order.
pub uninterp spec fn service_method_names(s: ServiceDescriptor) -> Seq<Seq<char>>;

/// The method of a service at a position in declaration order.
pub uninterp spec fn service_method(s: ServiceDescriptor, i: int) -> MethodDescriptor;

/// The request message type of a method.
pub uninterp spec fn input_of(m: MethodDescriptor) -> MessageDescriptor;

/// Whether JSON `text` reads as one message of type `desc` with nothing but
/// whitespace after it.
pub uninterp spec fn json_accepts(desc: MessageDescriptor, text: Seq<char>) -> bool;

/// Relies on `DescriptorPool::services` and `ServiceDescriptor::full_name`:
/// each service of the pool once, in order, each found by `get_service_by_name`.
#[verifier::external_body]
pub(crate) fn service_names(pool: &DescriptorPool) -> (r: Vec<String>)
    ensures
        r@.len() == pool_service_order(*pool).len(),
        forall|i: int| 0 <= i < r@.len() ==> (#[trigger] r@[i])@ == pool_service_order(*pool)[i],
        forall|i: int| 0 <= i < r@.len() ==> pool_services(*pool).contains_key((#[trigger] r@[i])@),
{
    pool.services().map(|s| s.full_name().to_string()).collect()
}

/// Relies on `DescriptorPool::get_service_by_name`: the service found under
/// `name` (its fully qualified name, which may also be written with one
/// leading `.`), if the pool holds one.
#[verifier::external_body]
pub(crate) fn get_service_by_name(pool: &DescriptorPool, name: &str) -> (r: Option<ServiceDescriptor>)
    ensures
        r is Some <==> pool_services(*pool).contains_key(name@),
        r matches Some(s) ==> service_method_names(s) == pool_services(*pool)[name@] && s
            == pool_service(*pool, name@),
{
    pool.get_service_by_name(name)
}

/// Relies on `ServiceDescriptor::methods` and `MethodDescriptor::name`: the
/// method names, in the order of the service's definition.
#[verifier::external_body]
pub(crate) fn method_names(service: &ServiceDescriptor) -> (r: Vec<String>)
    ensures
        r@.len() == service_method_names(*service).len(),
        forall|i: int| 0 <= i < r@.len() ==> (#[trigger] r@[i])@ == service_method_names(*service)[i],
{
    service.methods().map(|m| m.name().to_string()).collect()
}

/// Relies on `MethodDescriptor::new`, which panics on an index past the last method.
#[verifier::external_body]
fn method_at(service: &ServiceDescriptor, index: usize) -> (r: MethodDescriptor)
    requires
        index < service_method_names(*service).len(),
    ensures
        r == service_method(*service, index as int),
{
    MethodDescriptor::new(service.clone(), index)
}

/// Relies on `DynamicMessage::deserialize` reading from a `serde_json::Deserializer`
/// over `text`, then on `Deserializer::end`, which fails where anything but
/// whitespace follows the document.
#[verifier::external_body]
fn deserialize_json(desc: &MessageDescriptor, text: &str) -> (r: Result<DynamicMessage, serde_json::Error>)
    ensures
        r is Ok <==> json_accepts(*desc, text@),
{
    let mut de = serde_json::Deserializer::from_str(text);
    let message = DynamicMessage::deserialize(desc.clone(), &mut de)?;
    de.end()?;
    Ok(message)
}

/// Whether a message can be written as JSON: prost-reflect refuses, among
/// others, an `Any` whose type it cannot resolve, a `Timestamp` or `Duration`
/// out of range, and a `Value` holding a non-finite number.
pub uninterp spec fn json_serializable(m: DynamicMessage) -> bool;

/// Relies on `serde_json::to_string_pretty` over the message's `Serialize` impl;
/// whether it succeeds depends on the message alone.
#[verifier::external_body]
fn to_json_pretty(message: &DynamicMessage) -> (r: Result<String, serde_json::Error>)
    ensures
        r is Ok <==> json_serializable(*message),
{
    serde_json::to_string_pretty(message)
}

/// Relies on the `Display` impl of `serde_json::Error` for a message.
#[verifier::external_body]
fn json_error_text(e: &serde_json::Error) -> (r: String)
{
    e.to_string()
}

/// Relies on `MethodDescriptor::input`.
#[verifier::external_body]
pub(crate) fn method_input(m: &MethodDescriptor) -> (r: MessageDescriptor)
    ensures
        r == input_of(*m),
{
    m.input()
}

/// The wire path of a method: `/<service full name>/<method name>`.
pub open spec fn method_path_spec(service: Seq<char>, method: Seq<char>) -> Seq<char> {
    seq!['/'] + service + seq!['/'] + method
}

/// Builds the wire path of a method from the service's full name and the
/// method's name.
pub fn method_path(service: &str, method: &str) -> (r: String)
    ensures
        r@ == method_path_spec(service@, method@),
{
    let s = chars_of(service);
    let m = chars_of(method);
    let mut out: Vec<char> = Vec::new();
    out.push('/');
    let mut i: usize = 0;
    while i < s.len()
        invariant
            i <= s.len(),
            out@ == seq!['/'] + s@.subrange(0, i as int),
        decreases s.len() - i,
    {
        out.push(s[i]);
        i += 1;
        assert(out@ =~= seq!['/'] + s@.subrange(0, i as int));
    }
    out.push('/');
    let mut j: usize = 0;
    while j < m.len()
        invariant
            j <= m.len(),
            out@ == seq!['/'] + s@ + seq!['/'] + m@.subrange(0, j as int),
        decreases m.len() - j,
    {
        out.push(m[j]);
        j += 1;
        assert(out@ =~= seq!['/'] + s@ + seq!['/'] + m@.subrange(0, j as int));
    }
    assert(s@.subrange(0, s@.len() as int) =~= s@);
    assert(m@.subrange(0, m@.len() as int) =~= m@);
    assert(out@ =~= method_path_spec(service@, method@));
    string_from_chars(&out)
}

/// Whether `i` is the position of the first entry of `names` equal to `name`.
pub open spec fn is_first_index(names: Seq<Seq<char>>, name: Seq<char>, i: int) -> bool {
    &&& 0 <= i < names.len()
    &&& names[i] == name
    &&& forall|j: int| 0 <= j < i ==> names[j] != name
}

/// Finds the first of `names` equal to `name`, by exact comparison.
pub fn find_name(names: &Vec<String>, name: &str) -> (r: Option<usize>)
    ensures
        match r {
            Some(i) => i < names@.len() && names@[i as int]@ == name@
                && forall|j: int| 0 <= j < i ==> (#[trigger] names@[j])@ != name@,
            None => forall|j: int| 0 <= j < names@.len() ==> (#[trigger] names@[j])@ != name@,
        },
{
    let target = name.to_owned();
    let mut i: usize = 0;
    while i < names.len()
        invariant
            i <= names@.len(),
            target@ == name@,
            forall|j: int| 0 <= j < i ==> (#[trigger] names@[j])@ != name@,
        decreases names.len() - i,
    {
        if names[i] == target {
            return Some(i);
        }
        i += 1;
    }
    None
}

/// The outcome of looking up `method` of `service` in pool `p`: the service
/// by exact full name, the method by exact name.
pub enum Lookup {
    ServiceMissing,
    MethodMissing,
    Found,
}

pub open spec fn lookup_spec(p: DescriptorPool, service: Seq<char>, method: Seq<char>) -> Lookup {
    if !pool_service_order(p).contains(service) {
        Lookup::ServiceMissing
    } else if !pool_services(p)[service].contains(method) {
        Lookup::MethodMissing
    } else {
        Lookup::Found
    }
}

/// The position of the first method named `method` in the service `service`.
pub open spec fn method_index(p: DescriptorPool, service: Seq<char>, method: Seq<char>) -> int {
    choose|i: int| is_first_index(pool_services(p)[service], method, i)
}

/// The method that a lookup finds.
pub open spec fn found_method(p: DescriptorPool, service: Seq<char>, method: Seq<char>) -> MethodDescriptor {
    service_method(pool_service(p, service), method_index(p, service, method))
}

/// The request message type of the method that a lookup finds.
pub open spec fn request_input(p: DescriptorPool, service: Seq<char>, method: Seq<char>) -> MessageDescriptor {
    input_of(found_method(p, service, method))
}

proof fn lemma_first_index_unique(names: Seq<Seq<char>>, name: Seq<char>, i: int, j: int)
    requires
        is_first_index(names, name, i),
        is_first_index(names, name, j),
    ensures
        i == j,
{
    if i < j {
        assert(names[i] != name);
    }
    if j < i {
        assert(names[j] != name);
    }
}

/// A method found by name: its descriptor, that of its request message, its
/// position among the service's methods, and its wire path.
pub struct ResolvedMethod {
    pub method: MethodDescriptor,
    pub input: MessageDescriptor,
    pub index: usize,
    pub path: String,
}

/// Looks up the service by exact full name and the method by exact name,
/// and derives the method's wire path.
pub fn resolve_method(pool: &DescriptorPool, service: &str, method: &str) -> (r: Result<ResolvedMethod, GrpcError>)
    ensures
        match lookup_spec(*pool, service@, method@) {
            Lookup::ServiceMissing => r matches Err(GrpcError::ServiceNotFound(n)) && n@ == service@,
            Lookup::MethodMissing => r matches Err(GrpcError::MethodNotFound(n)) && n@ == method@,
            Lookup::Found => r matches Ok(m) && m.index == method_index(*pool, service@, method@)
                && is_first_index(pool_services(*pool)[service@], method@, m.index as int)
                && m.method == found_method(*pool, service@, method@)
                && m.input == request_input(*pool, service@, method@)
                && m.path@ == method_path_spec(service@, method@),
        },
{
    let full_names = service_names(pool);
    match find_name(&full_names, service) {
        None => {
            proof {
                let order = pool_service_order(*pool);
                if order.contains(service@) {
                    let k = choose|k: int| 0 <= k < order.len() && order[k] == service@;
                    assert(full_names@[k]@ == service@);
                }
            }
            return Err(GrpcError::ServiceNotFound(service.to_owned()));
        },
        Some(k) => {
            assert(pool_service_order(*pool)[k as int] == service@);
            assert(pool_services(*pool).contains_key(full_names@[k as int]@));
        },
    }
    let svc = match get_service_by_name(pool, service) {
        Some(s) => s,
        None => return Err(GrpcError::ServiceNotFound(service.to_owned())),
    };
    let names = method_names(&svc);
    let ghost ns = pool_services(*pool)[service@];
    match find_name(&names, method) {
        None => {
            proof {
                if ns.contains(method@) {
                    let k = choose|k: int| 0 <= k < ns.len() && ns[k] == method@;
                    assert(names@[k]@ == method@);
                }
            }
            Err(GrpcError::MethodNotFound(method.to_owned()))
        },
        Some(i) => {
            proof {
                assert(ns[i as int] == method@);
                assert(ns.contains(method@));
                assert forall|j: int| 0 <= j < i implies ns[j] != method@ by {
                    assert(names@[j]@ != method@);
                }
                assert(is_first_index(ns, method@, i as int));
                let c = method_index(*pool, service@, method@);
                lemma_first_index_unique(ns, method@, i as int, c);
            }
            let m = method_at(&svc, i);
            let input = method_input(&m);
            Ok(ResolvedMethod { method: m, input, index: i, path: method_path(service, method) })
        },
    }
}

/// Turns what the JSON reader gave into the library's result: the message as
/// it is, or a `PayloadMismatch` carrying the reader's message.
pub fn payload_result<T>(read: Result<T, serde_json::Error>) -> (r: Result<T, GrpcError>)
    ensures
        read is Ok <==> r is Ok,
        read matches Ok(x) ==> r == Ok::<T, GrpcError>(x),
        r matches Err(e) ==> e is PayloadMismatch,
{
    match read {
        Ok(x) => Ok(x),
        Err(e) => Err(GrpcError::PayloadMismatch(json_error_text(&e))),
    }
}

/// Reads JSON `text` as a message of type `desc`. The whole text must be one
/// document of that shape; anything but whitespace after it is refused.
pub fn decode_message(desc: &MessageDescriptor, text: &str) -> (r: Result<DynamicMessage, GrpcError>)
    ensures
        r is Ok <==> json_accepts(*desc, text@),
        r matches Err(e) ==> e is PayloadMismatch,
{
    payload_result(deserialize_json(desc, text))
}

/// Writes a message, most often a response, as indented JSON text. A message
/// that has no JSON form came malformed off the wire: `WireDecodeError`.
pub fn encode_message(message: &DynamicMessage) -> (r: Result<String, GrpcError>)
    ensures
        r is Ok <==> json_serializable(*message),
        r matches Err(e) ==> e is WireDecodeError,
{
    match to_json_pretty(message) {
        Ok(text) => Ok(text),
        Err(e) => Err(GrpcError::WireDecodeError(json_error_text(&e))),
    }
}

/// Looks up a method and reads its request from JSON `text`: the first step
/// of every call with one request.
pub fn prepare_request(pool: &DescriptorPool, service: &str, method: &str, text: &str) -> (r: Result<(ResolvedMethod, DynamicMessage), GrpcError>)
    ensures
        match lookup_spec(*pool, service@, method@) {
            Lookup::ServiceMissing => r matches Err(GrpcError::ServiceNotFound(n)) && n@ == service@,
            Lookup::MethodMissing => r matches Err(GrpcError::MethodNotFound(n)) && n@ == method@,
            Lookup::Found => {
                &&& r is Ok <==> json_accepts(request_input(*pool, service@, method@), text@)
                &&& r matches Ok((m, _)) ==> m.index == method_index(*pool, service@, method@)
                    && m.method == found_method(*pool, service@, method@)
                    && m.input == request_input(*pool, service@, method@)
                    && m.path@ == method_path_spec(service@, method@)
                &&& r matches Err(e) ==> e is PayloadMismatch
            },
        },
{
    let resolved = match resolve_method(pool, service, method) {
        Ok(m) => m,
        Err(e) => return Err(e),
    };
    match decode_message(&resolved.input, text) {
        Ok(message) => Ok((resolved, message)),
        Err(e) => Err(e),
    }
}

} // verus!
