//! Namespaces, components and endpoints of the distributed runtime, and the
//! names under which they are registered and addressed.
use vstd::prelude::*;
use crate::protocols::Endpoint as EndpointId;
use crate::text::chars_of;
use crate::text::push_char;

verus! {

/// The root of the paths under which each instance registers itself.
pub const INSTANCE_ROOT_PATH: &'static str = "instances";

/// How an instance is reached.
#[derive(Debug, Clone, PartialEq, Eq)]
pub enum TransportType {
    NatsTcp(String),
}

/// A registered instance of an endpoint.
#[derive(Debug, Clone)]
pub struct Instance {
    pub component: String,
    pub endpoint: String,
    pub namespace: String,
    pub instance_id: i64,
    pub transport: TransportType,
}

impl Instance {
    /// The instance id.
    pub fn id(&self) -> (r: i64)
        ensures
            r == self.instance_id,
    {
        self.instance_id
    }
}

// ----- names -----

/// The hexadecimal digit of `d` (lower case).
pub open spec fn hex_digit(d: nat) -> char {
    seq!['0', '1', '2', '3', '4', '5', '6', '7', '8', '9', 'a', 'b', 'c', 'd', 'e', 'f'][d as int]
}

/// `n` in lower-case hexadecimal, without leading zeros.
pub open spec fn hex_of(n: nat) -> Seq<char>
    decreases n,
{
    if n < 16 {
        seq![hex_digit(n)]
    } else {
        hex_of(n / 16).push(hex_digit(n % 16))
    }
}

/// A lease id in hexadecimal; a negative one is written in two's complement.
pub open spec fn lease_hex(lease_id: i64) -> Seq<char> {
    hex_of((lease_id as u64) as nat)
}

/// `c` in a slug: ASCII letters lowered, digits, `-` and `_` kept, anything
/// else replaced by `_`.
pub open spec fn slug_char(c: char) -> char {
    if 'A' <= c <= 'Z' {
        ((c as u32) + 32) as char
    } else if ('a' <= c <= 'z') || ('0' <= c <= '9') || c == '-' || c == '_' {
        c
    } else {
        '_'
    }
}

/// `s` as a slug, character by character.
pub open spec fn slug_of(s: Seq<char>) -> Seq<char> {
    s.map_values(|c: char| slug_char(c))
}

fn hex_char(d: u64) -> (c: char)
    requires
        d < 16,
    ensures
        c == hex_digit(d as nat),
{
    match d {
        0 => '0',
        1 => '1',
        2 => '2',
        3 => '3',
        4 => '4',
        5 => '5',
        6 => '6',
        7 => '7',
        8 => '8',
        9 => '9',
        10 => 'a',
        11 => 'b',
        12 => 'c',
        13 => 'd',
        14 => 'e',
        _ => 'f',
    }
}

/// Appends `n` in hexadecimal to `s`.
fn push_hex(s: &mut String, n: u64)
    ensures
        final(s)@ == old(s)@ + hex_of(n as nat),
    decreases n,
{
    if n >= 16 {
        push_hex(s, n / 16);
    }
    push_char(s, hex_char(n % 16));
    proof {
        if n < 16 {
            assert(hex_of(n as nat) == seq![hex_digit(n as nat)]);
            assert(old(s)@ + hex_of(n as nat) =~= old(s)@.push(hex_digit(n as nat)));
        } else {
            assert(old(s)@ + hex_of(n as nat) =~= (old(s)@ + hex_of((n / 16) as nat)).push(
                hex_digit((n % 16) as nat),
            ));
        }
    }
}

fn slug_char_of(c: char) -> (r: char)
    ensures
        r == slug_char(c),
{
    if 'A' <= c && c <= 'Z' {
        ((c as u8) + 32) as char
    } else if ('a' <= c && c <= 'z') || ('0' <= c && c <= '9') || c == '-' || c == '_' {
        c
    } else {
        '_'
    }
}

/// `s` as a slug (see `slug_char`).
pub fn slugify(s: &str) -> (r: String)
    ensures
        r@ == slug_of(s@),
{
    let cs = chars_of(s);
    let mut r = String::new();
    let mut i: usize = 0;
    while i < cs.len()
        invariant
            cs@ == s@,
            i <= cs@.len(),
            r@ == slug_of(s@.subrange(0, i as int)),
        decreases cs@.len() - i,
    {
        push_char(&mut r, slug_char_of(cs[i]));
        i = i + 1;
        assert(r@ =~= slug_of(s@.subrange(0, i as int)));
    }
    assert(s@.subrange(0, cs@.len() as int) =~= s@);
    r
}

/// `a`, then `sep`, then `b`.
fn joined(a: &str, sep: char, b: &str) -> (r: String)
    ensures
        r@ == a@ + seq![sep] + b@,
{
    let mut r = a.to_owned();
    push_char(&mut r, sep);
    r.append(b);
    r
}

// ----- namespaces, components, endpoints -----

/// A logical group of components.
#[derive(Debug, Clone)]
pub struct Namespace {
    name: String,
    is_static: bool,
}

impl Namespace {
    pub closed spec fn spec_name(&self) -> Seq<char> {
        self.name@
    }

    pub closed spec fn spec_is_static(&self) -> bool {
        self.is_static
    }

    /// A namespace named `name`; the components of a static one are fixed at
    /// start-up and not discovered.
    pub fn new(name: String, is_static: bool) -> (r: Namespace)
        ensures
            r.spec_name() == name@,
            r.spec_is_static() == is_static,
    {
        Namespace { name, is_static }
    }

    /// A component named `name` in this namespace.
    pub fn component(&self, name: String) -> (r: Component)
        ensures
            r.spec_name() == name@,
            r.spec_namespace().spec_name() == self.spec_name(),
            r.spec_namespace().spec_is_static() == self.spec_is_static(),
            r.spec_is_static() == self.spec_is_static(),
    {
        Component {
            name,
            namespace: Namespace { name: self.name.clone(), is_static: self.is_static },
            is_static: self.is_static,
        }
    }

    /// The namespace's name.
    pub fn name(&self) -> (r: &str)
        ensures
            r@ == self.spec_name(),
    {
        self.name.as_str()
    }
}

/// A discoverable unit of a namespace, which hosts endpoints.
#[derive(Debug, Clone)]
pub struct Component {
    name: String,
    namespace: Namespace,
    is_static: bool,
}

impl Component {
    pub closed spec fn spec_name(&self) -> Seq<char> {
        self.name@
    }

    pub closed spec fn spec_namespace(&self) -> Namespace {
        self.namespace
    }

    pub closed spec fn spec_is_static(&self) -> bool {
        self.is_static
    }

    /// The component part of an instance path: `instances/<namespace>/<name>`.
    pub fn etcd_root(&self) -> (r: String)
        ensures
            r@ == INSTANCE_ROOT_PATH@ + seq!['/'] + self.spec_namespace().spec_name() + seq!['/']
                + self.spec_name(),
    {
        let mut r = joined(INSTANCE_ROOT_PATH, '/', self.namespace.name());
        push_char(&mut r, '/');
        r.append(self.name.as_str());
        r
    }

    /// The service name: `<namespace>_<name>` as a slug.
    pub fn service_name(&self) -> (r: String)
        ensures
            r@ == slug_of(self.spec_namespace().spec_name() + seq!['_'] + self.spec_name()),
    {
        let s = joined(self.namespace.name(), '_', self.name.as_str());
        slugify(s.as_str())
    }

    /// `<namespace>/<name>`.
    pub fn path(&self) -> (r: String)
        ensures
            r@ == self.spec_namespace().spec_name() + seq!['/'] + self.spec_name(),
    {
        joined(self.namespace.name(), '/', self.name.as_str())
    }

    /// The namespace of the component.
    pub fn namespace(&self) -> (r: &Namespace)
        ensures
            *r == self.spec_namespace(),
    {
        &self.namespace
    }

    /// The component's name.
    pub fn name(&self) -> (r: String)
        ensures
            r@ == self.spec_name(),
    {
        self.name.clone()
    }

    /// The endpoint named `endpoint` of this component.
    pub fn endpoint(&self, endpoint: String) -> (r: Endpoint)
        ensures
            r.spec_name() == endpoint@,
            r.spec_component().spec_name() == self.spec_name(),
            r.spec_component().spec_namespace().spec_name() == self.spec_namespace().spec_name(),
            r.spec_component().spec_namespace().spec_is_static()
                == self.spec_namespace().spec_is_static(),
            r.spec_component().spec_is_static() == self.spec_is_static(),
            r.spec_is_static() == self.spec_is_static(),
    {
        Endpoint {
            component: Component {
                name: self.name.clone(),
                namespace: Namespace {
                    name: self.namespace.name.clone(),
                    is_static: self.namespace.is_static,
                },
                is_static: self.is_static,
            },
            name: endpoint,
            is_static: self.is_static,
        }
    }
}

/// A network-accessible service of a component.
#[derive(Debug, Clone)]
pub struct Endpoint {
    component: Component,
    name: String,
    is_static: bool,
}

impl Endpoint {
    pub closed spec fn spec_name(&self) -> Seq<char> {
        self.name@
    }

    pub closed spec fn spec_component(&self) -> Component {
        self.component
    }

    pub closed spec fn spec_is_static(&self) -> bool {
        self.is_static
    }

    /// The endpoint's namespace, component and name.
    pub fn id(&self) -> (r: EndpointId)
        ensures
            r.namespace@ == self.spec_component().spec_namespace().spec_name(),
            r.component@ == self.spec_component().spec_name(),
            r.name@ == self.spec_name(),
    {
        EndpointId {
            namespace: self.component.namespace.name.clone(),
            component: self.component.name.clone(),
            name: self.name.clone(),
        }
    }

    /// The endpoint's name.
    pub fn name(&self) -> (r: &str)
        ensures
            r@ == self.spec_name(),
    {
        self.name.as_str()
    }

    /// The component of the endpoint.
    pub fn component(&self) -> (r: &Component)
        ensures
            *r == self.spec_component(),
    {
        &self.component
    }

    /// `<namespace>/<component>/<name>`.
    pub fn path(&self) -> (r: String)
        ensures
            r@ == self.spec_component().spec_namespace().spec_name() + seq!['/']
                + self.spec_component().spec_name() + seq!['/'] + self.spec_name(),
    {
        let p = self.component.path();
        joined(p.as_str(), '/', self.name.as_str())
    }

    /// The endpoint part of an instance path:
    /// `instances/<namespace>/<component>/<name>`.
    pub fn etcd_root(&self) -> (r: String)
        ensures
            r@ == INSTANCE_ROOT_PATH@ + seq!['/'] + self.spec_component().spec_namespace().spec_name()
                + seq!['/'] + self.spec_component().spec_name() + seq!['/'] + self.spec_name(),
    {
        let p = self.component.etcd_root();
        joined(p.as_str(), '/', self.name.as_str())
    }

    /// The full path of an instance: the endpoint root, followed by `:` and the
    /// lease id in hexadecimal unless the endpoint is static.
    pub fn etcd_path(&self, lease_id: i64) -> (r: String)
        ensures
            self.spec_is_static() ==> r@ == INSTANCE_ROOT_PATH@ + seq!['/']
                + self.spec_component().spec_namespace().spec_name() + seq!['/']
                + self.spec_component().spec_name() + seq!['/'] + self.spec_name(),
            !self.spec_is_static() ==> r@ == INSTANCE_ROOT_PATH@ + seq!['/']
                + self.spec_component().spec_namespace().spec_name() + seq!['/']
                + self.spec_component().spec_name() + seq!['/'] + self.spec_name() + seq![':']
                + lease_hex(lease_id),
    {
        let mut r = self.etcd_root();
        if !self.is_static {
            push_char(&mut r, ':');
            push_hex(&mut r, lease_id as u64);
        }
        r
    }

    /// The name of an instance: the endpoint's name, followed by `-` and the
    /// lease id in hexadecimal unless the endpoint is static.
    pub fn name_with_id(&self, lease_id: i64) -> (r: String)
        ensures
            self.spec_is_static() ==> r@ == self.spec_name(),
            !self.spec_is_static() ==> r@ == self.spec_name() + seq!['-'] + lease_hex(lease_id),
    {
        let mut r = self.name.clone();
        if !self.is_static {
            push_char(&mut r, '-');
            push_hex(&mut r, lease_id as u64);
        }
        r
    }

    /// `<service name>.<name>`.
    pub fn subject(&self) -> (r: String)
        ensures
            r@ == slug_of(
                self.spec_component().spec_namespace().spec_name() + seq!['_']
                    + self.spec_component().spec_name(),
            ) + seq!['.'] + self.spec_name(),
    {
        let s = self.component.service_name();
        joined(s.as_str(), '.', self.name.as_str())
    }

    /// The subject of the instance with lease `lease_id`:
    /// `<service name>.<name with id>`.
    pub fn subject_to(&self, lease_id: i64) -> (r: String)
        ensures
            self.spec_is_static() ==> r@ == slug_of(
                self.spec_component().spec_namespace().spec_name() + seq!['_']
                    + self.spec_component().spec_name(),
            ) + seq!['.'] + self.spec_name(),
            !self.spec_is_static() ==> r@ == slug_of(
                self.spec_component().spec_namespace().spec_name() + seq!['_']
                    + self.spec_component().spec_name(),
            ) + seq!['.'] + self.spec_name() + seq!['-'] + lease_hex(lease_id),
    {
        let s = self.component.service_name();
        let n = self.name_with_id(lease_id);
        joined(s.as_str(), '.', n.as_str())
    }
}

/// A name was refused: it holds a character other than `a`-`z`, `0`-`9`, `-`
/// and `_`, or is empty.
#[derive(Debug, Clone, Copy, PartialEq, Eq, Structural)]
pub struct InvalidCharacters;

/// The characters allowed in a name.
pub open spec fn allowed_char(c: char) -> bool {
    ('a' <= c <= 'z') || ('0' <= c <= '9') || c == '-' || c == '_'
}

/// Checks that `input` is a non-empty name of allowed characters only.
pub fn validate_allowed_chars(input: &str) -> (r: Result<(), InvalidCharacters>)
    ensures
        r is Ok <==> (input@.len() > 0 && forall|i: int|
            0 <= i < input@.len() ==> allowed_char(#[trigger] input@[i])),
{
    let cs = chars_of(input);
    if cs.len() == 0 {
        return Err(InvalidCharacters);
    }
    let mut i: usize = 0;
    while i < cs.len()
        invariant
            cs@ == input@,
            i <= cs@.len(),
            forall|j: int| 0 <= j < i ==> allowed_char(#[trigger] cs@[j]),
        decreases cs@.len() - i,
    {
        let c = cs[i];
        if !(('a' <= c && c <= 'z') || ('0' <= c && c <= '9') || c == '-' || c == '_') {
            assert(!allowed_char(input@[i as int]));
            return Err(InvalidCharacters);
        }
        i = i + 1;
    }
    Ok(())
}

impl PartialEq for Component {
    /// Same namespace name, name and kind.
    fn eq(&self, other: &Component) -> (r: bool) {
        self.namespace.name == other.namespace.name && self.name == other.name && self.is_static
            == other.is_static
    }
}

impl vstd::std_specs::cmp::PartialEqSpecImpl for Component {
    open spec fn obeys_eq_spec() -> bool {
        true
    }

    open spec fn eq_spec(&self, other: &Component) -> bool {
        &&& self.spec_namespace().spec_name() == other.spec_namespace().spec_name()
        &&& self.spec_name() == other.spec_name()
        &&& self.spec_is_static() == other.spec_is_static()
    }
}

impl Eq for Component {
}

impl PartialEq for Endpoint {
    /// Same component, name and kind.
    fn eq(&self, other: &Endpoint) -> (r: bool) {
        self.component == other.component && self.name == other.name && self.is_static
            == other.is_static
    }
}

impl vstd::std_specs::cmp::PartialEqSpecImpl for Endpoint {
    open spec fn obeys_eq_spec() -> bool {
        true
    }

    open spec fn eq_spec(&self, other: &Endpoint) -> bool {
        &&& self.spec_component().spec_namespace().spec_name()
            == other.spec_component().spec_namespace().spec_name()
        &&& self.spec_component().spec_name() == other.spec_component().spec_name()
        &&& self.spec_component().spec_is_static() == other.spec_component().spec_is_static()
        &&& self.spec_name() == other.spec_name()
        &&& self.spec_is_static() == other.spec_is_static()
    }
}

impl Eq for Endpoint {
}

} // verus!
