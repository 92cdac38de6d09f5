//! Describes every method of a descriptor pool for a presentation layer: its
//! name, its streaming directions, and a JSON-schema-shaped description of its
//! input message.
use crate::grpc::{
    get_service_by_name, input_of, method_input, method_names, pool_service, pool_service_order,
    pool_services, service_method, service_method_names, service_names,
};
use crate::text::{append, string_from_chars};
use prost_reflect::{
    DescriptorPool, EnumDescriptor, FieldDescriptor, Kind, MessageDescriptor, MethodDescriptor,
    ServiceDescriptor,
};
use vstd::prelude::*;

verus! {

#[verifier::external_type_specification]
#[verifier::external_body]
pub struct ExFieldDescriptor(FieldDescriptor);

#[verifier::external_type_specification]
#[verifier::external_body]
pub struct ExEnumDescriptor(EnumDescriptor);

#[verifier::external_type_specification]
pub struct ExKind(Kind);

/// One method of a service, as shown to a user.
#[derive(Debug)]
pub struct MethodDefinition {
    pub name: String,
    pub server_streaming: bool,
    pub client_streaming: bool,
    pub schema: String,
}

/// One service of a pool, with its methods in declaration order.
#[derive(Debug)]
pub struct ServiceDefinition {
    pub name: String,
    pub methods: Vec<MethodDefinition>,
}

/// How deep nested messages are described; deeper ones show as plain objects,
/// so that a message type that contains itself still has a finite schema.
pub const MAX_SCHEMA_DEPTH: usize = 8;

/// The fields of a message in field-number order, each as its name, its kind,
/// whether it is a list and whether it is a map.
pub uninterp spec fn message_field_info(m: MessageDescriptor) -> Seq<(Seq<char>, Kind, bool, bool)>;

/// A field's name, kind, list flag and map flag.
pub uninterp spec fn field_info(f: FieldDescriptor) -> (Seq<char>, Kind, bool, bool);

/// Whether a method takes a stream of requests.
pub uninterp spec fn client_streaming_of(m: MethodDescriptor) -> bool;

/// Whether a method answers with a stream of responses.
pub uninterp spec fn server_streaming_of(m: MethodDescriptor) -> bool;

/// Relies on `ServiceDescriptor::methods`: the methods in declaration order.
#[verifier::external_body]
fn service_methods(service: &ServiceDescriptor) -> (r: Vec<MethodDescriptor>)
    ensures
        r@.len() == service_method_names(*service).len(),
        forall|j: int| 0 <= j < r@.len() ==> #[trigger] r@[j] == service_method(*service, j),
{
    service.methods().collect()
}

/// Relies on `MethodDescriptor::is_client_streaming`.
#[verifier::external_body]
fn is_client_streaming(m: &MethodDescriptor) -> (r: bool)
    ensures
        r == client_streaming_of(*m),
{
    m.is_client_streaming()
}

/// Relies on `MethodDescriptor::is_server_streaming`.
#[verifier::external_body]
fn is_server_streaming(m: &MethodDescriptor) -> (r: bool)
    ensures
        r == server_streaming_of(*m),
{
    m.is_server_streaming()
}

/// Relies on `MessageDescriptor::fields`: the fields in field-number order.
#[verifier::external_body]
fn message_fields(m: &MessageDescriptor) -> (r: Vec<FieldDescriptor>)
    ensures
        r@.len() == message_field_info(*m).len(),
        forall|i: int| 0 <= i < r@.len() ==> field_info(#[trigger] r@[i]) == message_field_info(*m)[i],
{
    m.fields().collect()
}

/// Relies on `FieldDescriptor::name`.
#[verifier::external_body]
fn field_name(f: &FieldDescriptor) -> (r: String)
    ensures
        r@ == field_info(*f).0,
{
    f.name().to_string()
}

/// Relies on `FieldDescriptor::kind`.
#[verifier::external_body]
fn field_kind(f: &FieldDescriptor) -> (r: Kind)
    ensures
        r == field_info(*f).1,
{
    f.kind()
}

/// Relies on `FieldDescriptor::is_list`: repeated, and not a map.
#[verifier::external_body]
fn field_is_list(f: &FieldDescriptor) -> (r: bool)
    ensures
        r == field_info(*f).2,
{
    f.is_list()
}

/// Relies on `FieldDescriptor::is_map`.
#[verifier::external_body]
fn field_is_map(f: &FieldDescriptor) -> (r: bool)
    ensures
        r == field_info(*f).3,
{
    f.is_map()
}

/// The JSON type of a value of kind `k`.
pub open spec fn json_type(k: Kind) -> Seq<char> {
    match k {
        Kind::Double | Kind::Float => "number"@,
        Kind::Bool => "boolean"@,
        Kind::String | Kind::Bytes | Kind::Enum(_) => "string"@,
        Kind::Message(_) => "object"@,
        _ => "integer"@,
    }
}

pub open spec fn type_schema(t: Seq<char>) -> Seq<char> {
    "{\"type\":\""@ + t + "\"}"@
}

pub open spec fn array_schema(item: Seq<char>) -> Seq<char> {
    "{\"type\":\"array\",\"items\":"@ + item + "}"@
}

pub open spec fn property(name: Seq<char>, schema: Seq<char>) -> Seq<char> {
    "\""@ + name + "\":"@ + schema
}

/// The properties, separated by commas.
pub open spec fn properties(ps: Seq<(Seq<char>, Seq<char>)>) -> Seq<char>
    decreases ps.len(),
{
    if ps.len() == 0 {
        seq![]
    } else if ps.len() == 1 {
        property(ps[0].0, ps[0].1)
    } else {
        properties(ps.drop_last()) + ","@ + property(ps.last().0, ps.last().1)
    }
}

pub open spec fn object_schema(ps: Seq<(Seq<char>, Seq<char>)>) -> Seq<char> {
    "{\"type\":\"object\",\"properties\":{"@ + properties(ps) + "}}"@
}

/// The schema of a field of kind `kind`, where `nested` describes the message
/// of a message field.
pub open spec fn field_schema(kind: Kind, list: bool, map: bool, nested: Seq<char>) -> Seq<char> {
    let elem = match kind {
        Kind::Message(_) => nested,
        _ => type_schema(json_type(kind)),
    };
    if map {
        type_schema("object"@)
    } else if list {
        array_schema(elem)
    } else {
        elem
    }
}

/// The schema of a message described down to `depth` more levels of nesting.
pub open spec fn schema_of(m: MessageDescriptor, depth: nat) -> Seq<char>
    decreases depth, 1nat, 0nat,
{
    object_schema(field_props(message_field_info(m), depth))
}

/// The named schemas of fields `fs`, nested messages described down to
/// `depth` more levels; below that a message is a plain object.
pub open spec fn field_props(fs: Seq<(Seq<char>, Kind, bool, bool)>, depth: nat) -> Seq<(Seq<char>, Seq<char>)>
    decreases depth, 0nat, fs.len(),
{
    if fs.len() == 0 {
        seq![]
    } else {
        let f = fs.last();
        let nested = match f.1 {
            Kind::Message(d) => if depth > 0 {
                schema_of(d, (depth - 1) as nat)
            } else {
                type_schema("object"@)
            },
            _ => seq![],
        };
        field_props(fs.drop_last(), depth).push((f.0, field_schema(f.1, f.2, f.3, nested)))
    }
}

pub open spec fn props_view(ps: Seq<(String, String)>) -> Seq<(Seq<char>, Seq<char>)> {
    ps.map_values(|p: (String, String)| (p.0@, p.1@))
}

fn json_type_name(k: &Kind) -> (r: &'static str)
    ensures
        r@ == json_type(*k),
{
    match k {
        Kind::Double | Kind::Float => "number",
        Kind::Bool => "boolean",
        Kind::String | Kind::Bytes | Kind::Enum(_) => "string",
        Kind::Message(_) => "object",
        _ => "integer",
    }
}

/// `{"type":"<t>"}`.
pub fn type_schema_text(t: &str) -> (r: String)
    ensures
        r@ == type_schema(t@),
{
    let mut out: Vec<char> = Vec::new();
    append(&mut out, "{\"type\":\"");
    append(&mut out, t);
    append(&mut out, "\"}");
    string_from_chars(&out)
}

/// The schema of one field, `nested` being that of its message where it has one.
pub fn field_schema_text(kind: &Kind, list: bool, map: bool, nested: &String) -> (r: String)
    ensures
        r@ == field_schema(*kind, list, map, nested@),
{
    if map {
        return type_schema_text("object");
    }
    let elem = match kind {
        Kind::Message(_) => nested.clone(),
        _ => type_schema_text(json_type_name(kind)),
    };
    if list {
        let mut out: Vec<char> = Vec::new();
        append(&mut out, "{\"type\":\"array\",\"items\":");
        append(&mut out, elem.as_str());
        append(&mut out, "}");
        string_from_chars(&out)
    } else {
        elem
    }
}

/// `{"type":"object","properties":{...}}` over named property schemas.
pub fn object_schema_text(props: &Vec<(String, String)>) -> (r: String)
    ensures
        r@ == object_schema(props_view(props@)),
{
    let ghost pv = props_view(props@);
    let mut out: Vec<char> = Vec::new();
    append(&mut out, "{\"type\":\"object\",\"properties\":{");
    let ghost head = out@;
    let mut i: usize = 0;
    while i < props.len()
        invariant
            i <= props@.len(),
            pv == props_view(props@),
            out@ == head + properties(pv.subrange(0, i as int)),
        decreases props.len() - i,
    {
        let ghost before = out@;
        if i > 0 {
            append(&mut out, ",");
        }
        append(&mut out, "\"");
        append(&mut out, props[i].0.as_str());
        append(&mut out, "\":");
        append(&mut out, props[i].1.as_str());
        proof {
            let sub = pv.subrange(0, i + 1);
            assert(sub.drop_last() =~= pv.subrange(0, i as int));
            assert(sub.last() == pv[i as int]);
            if i == 0 {
                assert(properties(pv.subrange(0, 0)) =~= seq![]);
            }
            assert(out@ =~= head + properties(sub));
        }
        i += 1;
    }
    assert(pv.subrange(0, props@.len() as int) =~= pv);
    append(&mut out, "}}");
    string_from_chars(&out)
}

/// The schema of a message: an object with one property per field, nested
/// messages described down to `depth` more levels.
pub fn message_schema(m: &MessageDescriptor, depth: usize) -> (r: String)
    ensures
        r@ == schema_of(*m, depth as nat),
    decreases depth,
{
    let fields = message_fields(m);
    let ghost info = message_field_info(*m);
    let mut props: Vec<(String, String)> = Vec::new();
    let mut i: usize = 0;
    while i < fields.len()
        invariant
            i <= fields@.len(),
            fields@.len() == info.len(),
            info == message_field_info(*m),
            forall|k: int| 0 <= k < fields@.len() ==> field_info(#[trigger] fields@[k]) == info[k],
            props@.len() == i,
            props_view(props@) == field_props(info.subrange(0, i as int), depth as nat),
        decreases fields.len() - i,
    {
        let f = &fields[i];
        let kind = field_kind(f);
        let nested = match &kind {
            Kind::Message(d) => if depth > 0 {
                message_schema(d, depth - 1)
            } else {
                type_schema_text("object")
            },
            _ => String::new(),
        };
        let schema = field_schema_text(&kind, field_is_list(f), field_is_map(f), &nested);
        let ghost p0 = props@;
        props.push((field_name(f), schema));
        proof {
            let sub = info.subrange(0, i + 1);
            assert(sub.drop_last() =~= info.subrange(0, i as int));
            assert(sub.last() == info[i as int]);
            assert(props_view(props@) =~= props_view(p0).push((props@[i as int].0@, props@[i as int].1@)));
        }
        i += 1;
    }
    assert(info.subrange(0, fields@.len() as int) =~= info);
    object_schema_text(&props)
}

/// `d` describes method `m` named `name`: its name, its streaming
/// directions and the schema of its request message.
pub open spec fn describes_method(d: MethodDefinition, m: MethodDescriptor, name: Seq<char>) -> bool {
    &&& d.name@ == name
    &&& d.client_streaming == client_streaming_of(m)
    &&& d.server_streaming == server_streaming_of(m)
    &&& d.schema@ == schema_of(input_of(m), MAX_SCHEMA_DEPTH as nat)
}

/// `defs` lists every service of `pool` in order, by full name, each with
/// all of its methods in order.
pub open spec fn describes_pool(defs: Seq<ServiceDefinition>, pool: DescriptorPool) -> bool {
    &&& defs.len() == pool_service_order(pool).len()
    &&& forall|i: int|
        0 <= i < defs.len() ==> {
            let name = pool_service_order(pool)[i];
            let methods = pool_services(pool)[name];
            &&& (#[trigger] defs[i]).name@ == name
            &&& defs[i].methods@.len() == methods.len()
            &&& forall|j: int|
                0 <= j < methods.len() ==> describes_method(
                    #[trigger] defs[i].methods@[j],
                    service_method(pool_service(pool, name), j),
                    methods[j],
                )
        }
}

/// Every service of the pool in order, with each of its methods in order.
pub fn export_services(pool: &DescriptorPool) -> (r: Vec<ServiceDefinition>)
    ensures
        describes_pool(r@, *pool),
{
    let names = service_names(pool);
    let mut out: Vec<ServiceDefinition> = Vec::new();
    let mut i: usize = 0;
    while i < names.len()
        invariant
            i <= names@.len(),
            names@.len() == pool_service_order(*pool).len(),
            forall|k: int| 0 <= k < names@.len() ==> (#[trigger] names@[k])@ == pool_service_order(*pool)[k],
            forall|k: int| 0 <= k < names@.len() ==> pool_services(*pool).contains_key((#[trigger] names@[k])@),
            out@.len() == i,
            forall|k: int|
                0 <= k < i ==> {
                    let name = pool_service_order(*pool)[k];
                    let methods = pool_services(*pool)[name];
                    &&& (#[trigger] out@[k]).name@ == name
                    &&& out@[k].methods@.len() == methods.len()
                    &&& forall|j: int|
                        0 <= j < methods.len() ==> describes_method(
                            #[trigger] out@[k].methods@[j],
                            service_method(pool_service(*pool, name), j),
                            methods[j],
                        )
                },
        decreases names.len() - i,
    {
        assert(pool_services(*pool).contains_key(names@[i as int]@));
        let service = match get_service_by_name(pool, names[i].as_str()) {
            Some(s) => s,
            None => {
                return out;
            },
        };
        let ghost methods = pool_services(*pool)[names@[i as int]@];
        let method_descs = service_methods(&service);
        let method_names = method_names(&service);
        let mut defs: Vec<MethodDefinition> = Vec::new();
        let mut j: usize = 0;
        while j < method_descs.len()
            invariant
                j <= method_descs@.len(),
                method_descs@.len() == methods.len(),
                method_names@.len() == methods.len(),
                forall|k: int| 0 <= k < method_names@.len() ==> (#[trigger] method_names@[k])@ == methods[k],
                service == pool_service(*pool, names@[i as int]@),
                forall|k: int| 0 <= k < method_descs@.len() ==> #[trigger] method_descs@[k] == service_method(service, k),
                defs@.len() == j,
                forall|k: int|
                    0 <= k < j ==> describes_method(#[trigger] defs@[k], service_method(service, k), methods[k]),
            decreases method_descs.len() - j,
        {
            let m = &method_descs[j];
            let input = method_input(m);
            defs.push(
                MethodDefinition {
                    name: method_names[j].clone(),
                    server_streaming: is_server_streaming(m),
                    client_streaming: is_client_streaming(m),
                    schema: message_schema(&input, MAX_SCHEMA_DEPTH),
                },
            );
            j += 1;
        }
        out.push(ServiceDefinition { name: names[i].clone(), methods: defs });
        i += 1;
    }
    assert(out@.len() == pool_service_order(*pool).len());
    out
}

} // verus!
