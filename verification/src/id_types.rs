use crate::keyed::KeyEq;
use vstd::string::StringSliceAdditionalSpecFns;
use vstd::prelude::*;

verus! {

broadcast use vstd::array::group_array_axioms;

/// A byte that may appear in an identifier: ASCII `0-9`, `A-Z` or `a-z`.
pub open spec fn is_id_byte(b: u8) -> bool {
    (48 <= b <= 57) || (65 <= b <= 90) || (97 <= b <= 122)
}

/// A character that may appear in an identifier seed.
pub open spec fn is_id_char(c: char) -> bool {
    ('0' <= c && c <= '9') || ('A' <= c && c <= 'Z') || ('a' <= c && c <= 'z')
}

/// A well-formed identifier seed: at most 20 bytes, all alphanumeric.
pub open spec fn valid_id_bytes(s: Seq<u8>) -> bool {
    s.len() <= 20 && forall|i: int| 0 <= i < s.len() ==> is_id_byte(s[i])
}

/// The fixed-width representation of a seed: the seed's bytes, padded to 20
/// bytes with the out-of-alphabet marker 128.
pub open spec fn padded_id(s: Seq<u8>) -> Seq<u8> {
    Seq::new(20, |i: int| if i < s.len() { s[i] } else { 128u8 })
}

/// The seed read back out of a fixed-width representation: the prefix that
/// stops at the first padding byte.
pub open spec fn id_content(d: Seq<u8>) -> Seq<u8>
    decreases d.len(),
{
    if d.len() == 0 || d[0] == 128 {
        Seq::empty()
    } else {
        seq![d[0]].add(id_content(d.drop_first()))
    }
}

proof fn lemma_id_content_prefix(d: Seq<u8>, n: int)
    requires
        0 <= n <= d.len(),
        forall|i: int| 0 <= i < n ==> is_id_byte(d[i]),
        n == d.len() || d[n] == 128,
    ensures
        id_content(d) == d.subrange(0, n),
    decreases n,
{
    if n == 0 {
        assert(id_content(d) =~= d.subrange(0, 0));
    } else {
        assert(is_id_byte(d[0]));
        lemma_id_content_prefix(d.drop_first(), n - 1);
        assert(id_content(d) =~= d.subrange(0, n));
    }
}

/// The byte-level validity read at the character level: a string of at
/// most 20 alphanumeric characters encodes to at most 20 alphanumeric
/// bytes, so construction accepts every such string.
pub proof fn lemma_alphanumeric_seed_is_valid(s: &str)
    requires
        s@.len() <= 20,
        forall|i: int| 0 <= i < s@.len() ==> is_id_char(#[trigger] s@[i]),
    ensures
        valid_id_bytes(s.spec_bytes()),
{
    assert(vstd::utf8::is_ascii_chars(s@));
    vstd::utf8::is_ascii_chars_encode_utf8(s@);
    assert forall|i: int| 0 <= i < s.spec_bytes().len() implies is_id_byte(
        #[trigger] s.spec_bytes()[i],
    ) by {
        assert(is_id_char(s@[i]));
        assert(s@[i] as u8 == s.spec_bytes()[i]);
    }
}

/// Identifier construction round-trips: a valid seed can be read back,
/// unchanged, from the fixed-width representation built for it.
pub proof fn lemma_identifier_round_trip(s: Seq<u8>)
    requires
        valid_id_bytes(s),
    ensures
        id_content(padded_id(s)) == s,
{
    let d = padded_id(s);
    lemma_id_content_prefix(d, s.len() as int);
    assert(d.subrange(0, s.len() as int) =~= s);
}

/// 20 alphanumeric characters uniquely naming a document-like entity.
/// Positions past the seed's end hold the padding byte 128.
#[derive(Clone, Copy, PartialEq, Eq, Hash, Debug)]
pub struct DatabaseId {
    data: [u8; 20],
}

impl View for DatabaseId {
    type V = Seq<u8>;

    closed spec fn view(&self) -> Seq<u8> {
        self.data@
    }
}

impl DatabaseId {
    /// Builds an identifier from a seed string.  Construction fails exactly
    /// when the seed is longer than 20 bytes or holds a byte outside the
    /// alphanumeric alphabet.
    pub fn from_string(seed: &str) -> (r: Result<Self, &'static str>)
        ensures
            r is Ok <==> valid_id_bytes(seed.spec_bytes()),
            r matches Ok(id) ==> id@ == padded_id(seed.spec_bytes()),
    {
        let bytes = seed.as_bytes();
        if bytes.len() > 20 {
            return Err("Length must be 20");
        }
        let mut array: [u8; 20] = [128; 20];
        let mut i: usize = 0;
        while i < bytes.len()
            invariant
                i <= bytes@.len() <= 20,
                bytes@ == seed.spec_bytes(),
                forall|j: int| 0 <= j < i ==> is_id_byte(bytes@[j]),
                forall|j: int| 0 <= j < i ==> array@[j] == bytes@[j],
                forall|j: int| i <= j < 20 ==> array@[j] == 128,
            decreases bytes@.len() - i,
        {
            let b = bytes[i];
            let alphanumeric = (48 <= b && b <= 57) || (65 <= b && b <= 90) || (97 <= b
                && b <= 122);
            if !alphanumeric {
                return Err("Only alphanumeric character allowed");
            }
            array[i] = b;
            i = i + 1;
        }
        let id = DatabaseId { data: array };
        proof {
            assert(id@ =~= padded_id(seed.spec_bytes()));
        }
        Ok(id)
    }
}

impl KeyEq for DatabaseId {
    fn key_eq(&self, other: &Self) -> (r: bool) {
        let mut i: usize = 0;
        while i < 20
            invariant
                i <= 20,
                forall|j: int| 0 <= j < i ==> self.data@[j] == other.data@[j],
            decreases 20 - i,
        {
            if self.data[i] != other.data[i] {
                proof {
                    assert(self.data@[i as int] != other.data@[i as int]);
                }
                return false;
            }
            i = i + 1;
        }
        proof {
            assert(self.data =~= other.data);
        }
        true
    }
}

/// A module identifier, tagged by the module's category.
#[derive(Clone, Copy, PartialEq, Eq, Hash, Debug)]
pub enum Module {
    Sensor(DatabaseId),
    Scanner(DatabaseId),
    Sampler(DatabaseId),
}

/// The closed set of module categories.
#[derive(Clone, Copy, PartialEq, Eq, Structural, Debug)]
pub enum ModuleKind {
    Sensor,
    Scanner,
    Sampler,
}

impl Module {
    pub open spec fn spec_kind(&self) -> ModuleKind {
        match *self {
            Module::Sensor(_) => ModuleKind::Sensor,
            Module::Scanner(_) => ModuleKind::Scanner,
            Module::Sampler(_) => ModuleKind::Sampler,
        }
    }

    /// The category tag alone, with the identifier payload disregarded.
    pub fn kind(&self) -> (r: ModuleKind)
        ensures
            r == self.spec_kind(),
    {
        match *self {
            Module::Sensor(_) => ModuleKind::Sensor,
            Module::Scanner(_) => ModuleKind::Scanner,
            Module::Sampler(_) => ModuleKind::Sampler,
        }
    }
}

impl KeyEq for Module {
    fn key_eq(&self, other: &Self) -> (r: bool) {
        match (self, other) {
            (Module::Sensor(a), Module::Sensor(b)) => a.key_eq(b),
            (Module::Scanner(a), Module::Scanner(b)) => a.key_eq(b),
            (Module::Sampler(a), Module::Sampler(b)) => a.key_eq(b),
            _ => false,
        }
    }
}

/// A ship identifier.
#[derive(Clone, Copy, PartialEq, Eq, Hash, Debug)]
pub enum Ship {
    Starter(DatabaseId),
}

impl KeyEq for Ship {
    fn key_eq(&self, other: &Self) -> (r: bool) {
        match (self, other) {
            (Ship::Starter(a), Ship::Starter(b)) => a.key_eq(b),
        }
    }
}

/// A resource identifier, tagged by the resource's category.
#[derive(Clone, Copy, PartialEq, Eq, Hash, Debug)]
pub enum Resource {
    Metal(DatabaseId),
    Crystal(DatabaseId),
    Radioactive(DatabaseId),
    Organic(DatabaseId),
}

/// The closed set of resource categories.
#[derive(Clone, Copy, PartialEq, Eq, Structural, Debug)]
pub enum ResourceKind {
    Metal,
    Crystal,
    Radioactive,
    Organic,
}

impl Resource {
    pub open spec fn spec_kind(&self) -> ResourceKind {
        match *self {
            Resource::Metal(_) => ResourceKind::Metal,
            Resource::Crystal(_) => ResourceKind::Crystal,
            Resource::Radioactive(_) => ResourceKind::Radioactive,
            Resource::Organic(_) => ResourceKind::Organic,
        }
    }

    /// The category tag alone, with the identifier payload disregarded.
    pub fn kind(&self) -> (r: ResourceKind)
        ensures
            r == self.spec_kind(),
    {
        match *self {
            Resource::Metal(_) => ResourceKind::Metal,
            Resource::Crystal(_) => ResourceKind::Crystal,
            Resource::Radioactive(_) => ResourceKind::Radioactive,
            Resource::Organic(_) => ResourceKind::Organic,
        }
    }
}

impl KeyEq for Resource {
    fn key_eq(&self, other: &Self) -> (r: bool) {
        match (self, other) {
            (Resource::Metal(a), Resource::Metal(b)) => a.key_eq(b),
            (Resource::Crystal(a), Resource::Crystal(b)) => a.key_eq(b),
            (Resource::Radioactive(a), Resource::Radioactive(b)) => a.key_eq(b),
            (Resource::Organic(a), Resource::Organic(b)) => a.key_eq(b),
            _ => false,
        }
    }
}

/// A module identifier qualified by the ship that carries the module.
#[derive(Clone, Copy, PartialEq, Eq, Hash, Debug)]
pub struct ModuleHandle {
    ship_id: Ship,
    module_id: Module,
}

impl ModuleHandle {
    pub closed spec fn spec_ship(&self) -> Ship {
        self.ship_id
    }

    pub closed spec fn spec_module(&self) -> Module {
        self.module_id
    }

    pub fn new(ship_id: Ship, module_id: Module) -> (r: Self)
        ensures
            r.spec_ship() == ship_id,
            r.spec_module() == module_id,
    {
        ModuleHandle { ship_id, module_id }
    }
}

/// A resource identifier qualified by the ship that stocks the resource.
#[derive(Clone, Copy, PartialEq, Eq, Hash, Debug)]
pub struct ResourceHandle {
    ship_id: Ship,
    resource_id: Resource,
}

impl ResourceHandle {
    pub closed spec fn spec_ship(&self) -> Ship {
        self.ship_id
    }

    pub closed spec fn spec_resource(&self) -> Resource {
        self.resource_id
    }

    pub fn new(ship_id: Ship, resource_id: Resource) -> (r: Self)
        ensures
            r.spec_ship() == ship_id,
            r.spec_resource() == resource_id,
    {
        ResourceHandle { ship_id, resource_id }
    }
}

/// An asteroid identifier.
#[derive(Clone, Copy, PartialEq, Eq, Hash, Debug)]
pub struct Asteroid {
    id: DatabaseId,
}

impl Asteroid {
    pub closed spec fn spec_id(&self) -> DatabaseId {
        self.id
    }

    pub fn new(id: DatabaseId) -> (r: Self)
        ensures
            r.spec_id() == id,
    {
        Asteroid { id }
    }
}

/// A user identifier.
#[derive(Clone, Copy, PartialEq, Eq, Hash, Debug)]
pub struct User {
    id: DatabaseId,
}

impl User {
    pub closed spec fn spec_id(&self) -> DatabaseId {
        self.id
    }

    pub fn new(id: DatabaseId) -> (r: Self)
        ensures
            r.spec_id() == id,
    {
        User { id }
    }
}

} // verus!
