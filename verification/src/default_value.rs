//! Defaults specified on a model field: either a static value or a dynamic
//! value generator (uuid, cuid, ulid, nanoid, now, autoincrement,
//! database-generated).
use vstd::prelude::*;

use vstd::string::StringSliceAdditionalSpecFns;

use crate::values::{
    clone_values, display_value, lemma_pvs_view, pv_view, pvs_view, spec_display_value,
    PrismaValue, PrismaValueType,
};

verus! {

/// Represents a default specified on a field.
#[derive(Debug)]
pub struct DefaultValue {
    pub kind: DefaultKind,
    pub db_name: Option<String>,
}

/// Represents a default specified on a field: a static value or a dynamic
/// generator expression.
#[derive(Debug)]
pub enum DefaultKind {
    /// A static value.
    Single(PrismaValue),
    /// A dynamic value produced by a generator.
    Expression(ValueGenerator),
}

/// A named generator call with its arguments and the resolved generator.
#[derive(Debug)]
pub struct ValueGenerator {
    pub name: String,
    pub args: Vec<PrismaValue>,
    pub generator: ValueGeneratorFn,
}

/// The resolved generator behind a generator name.
#[derive(Clone, Copy, Debug, PartialEq, Eq, Structural)]
pub enum ValueGeneratorFn {
    Uuid(u8),
    Cuid(u8),
    Ulid,
    Nanoid(Option<u8>),
    Now,
    Autoincrement,
    DbGenerated,
    Auto,
}

/// The generator a name and argument list resolve to, if the name is known.
pub open spec fn spec_generator_fn(name: Seq<char>, args: Seq<PrismaValue>) -> Option<
    ValueGeneratorFn,
> {
    if name == "ulid"@ {
        Some(ValueGeneratorFn::Ulid)
    } else if name == "cuid"@ {
        if args.len() == 1 && args[0] matches PrismaValue::Int(_) {
            Some(ValueGeneratorFn::Cuid(args[0]->Int_0 as u8))
        } else {
            None
        }
    } else if name == "uuid"@ {
        if args.len() == 1 && args[0] matches PrismaValue::Int(_) {
            Some(ValueGeneratorFn::Uuid(args[0]->Int_0 as u8))
        } else {
            None
        }
    } else if name == "nanoid"@ {
        if args.len() == 1 && args[0] matches PrismaValue::Int(_) {
            Some(ValueGeneratorFn::Nanoid(Some(args[0]->Int_0 as u8)))
        } else {
            Some(ValueGeneratorFn::Nanoid(None))
        }
    } else if name == "now"@ {
        Some(ValueGeneratorFn::Now)
    } else if name == "autoincrement"@ {
        Some(ValueGeneratorFn::Autoincrement)
    } else if name == "sequence"@ {
        Some(ValueGeneratorFn::Autoincrement)
    } else if name == "dbgenerated"@ {
        Some(ValueGeneratorFn::DbGenerated)
    } else if name == "auto"@ {
        Some(ValueGeneratorFn::Auto)
    } else {
        None
    }
}

impl ValueGeneratorFn {
    /// Resolves a generator name and argument list; unknown names and
    /// ill-shaped arguments fail with a message.
    pub fn new(name: &String, args: &Vec<PrismaValue>) -> (r: Result<Self, String>)
        ensures
            match r {
                Ok(f) => spec_generator_fn(name@, args@) == Some(f),
                Err(_) => spec_generator_fn(name@, args@) is None,
            },
    {
        if *name == String::from_str("ulid") {
            Ok(Self::Ulid)
        } else if *name == String::from_str("cuid") {
            match Self::version_arg(args) {
                Ok(v) => Ok(Self::Cuid(v)),
                Err(e) => Err(e),
            }
        } else if *name == String::from_str("uuid") {
            match Self::version_arg(args) {
                Ok(v) => Ok(Self::Uuid(v)),
                Err(e) => Err(e),
            }
        } else if *name == String::from_str("nanoid") {
            match Self::version_arg(args) {
                Ok(l) => Ok(Self::Nanoid(Some(l))),
                Err(_) => Ok(Self::Nanoid(None)),
            }
        } else if *name == String::from_str("now") {
            Ok(Self::Now)
        } else if *name == String::from_str("autoincrement") {
            Ok(Self::Autoincrement)
        } else if *name == String::from_str("sequence") {
            Ok(Self::Autoincrement)
        } else if *name == String::from_str("dbgenerated") {
            Ok(Self::DbGenerated)
        } else if *name == String::from_str("auto") {
            Ok(Self::Auto)
        } else {
            let mut msg = String::from_str("The function ");
            msg.append(name.as_str());
            msg.append(" is not a known function.");
            Err(msg)
        }
    }

    /// The single integer argument, truncated to a byte, of a generator call.
    fn version_arg(args: &Vec<PrismaValue>) -> (r: Result<u8, String>)
        ensures
            match r {
                Ok(v) => args@.len() == 1 && (args@[0] matches PrismaValue::Int(n) && v == n
                    as u8),
                Err(_) => !(args@.len() == 1 && args@[0] matches PrismaValue::Int(_)),
            },
    {
        if args.len() == 1 {
            match &args[0] {
                PrismaValue::Int(n) => Ok(#[verifier::truncate] (*n as u8)),
                _ => Err(String::from_str("expected a single integer argument")),
            }
        } else {
            Err(String::from_str("expected a single integer argument"))
        }
    }

    /// The generators that can be invoked without panicking: known uuid and
    /// cuid versions, and every other variant.
    pub open spec fn spec_can_invoke(self) -> bool {
        match self {
            ValueGeneratorFn::Uuid(v) => v == 4 || v == 7,
            ValueGeneratorFn::Cuid(v) => v == 1 || v == 2,
            _ => true,
        }
    }

    /// Produces a value for the generator: `None` for the generators whose
    /// value only the database can produce.
    pub fn invoke(&self) -> (r: Option<PrismaValue>)
        requires
            self.spec_can_invoke(),
        ensures
            match self {
                ValueGeneratorFn::Uuid(_) => r matches Some(v) && (v matches PrismaValue::Uuid(s)
                    && s@.len() == 36),
                ValueGeneratorFn::Cuid(_) => r matches Some(v) && v matches PrismaValue::Text(_),
                ValueGeneratorFn::Ulid => r matches Some(v) && (v matches PrismaValue::Text(s)
                    && s@.len() == 26),
                ValueGeneratorFn::Nanoid(l) => r matches Some(v) && (v matches PrismaValue::Text(s)
                    && s@.len() == (match l {
                    Some(n) => n as nat,
                    None => 21 as nat,
                })),
                ValueGeneratorFn::Now => r matches Some(v) && v matches PrismaValue::DateTime(_),
                ValueGeneratorFn::Autoincrement => r is None,
                ValueGeneratorFn::DbGenerated => r is None,
                ValueGeneratorFn::Auto => r is None,
            },
    {
        match self {
            Self::Uuid(version) => Some(Self::generate_uuid(*version)),
            Self::Cuid(version) => Some(Self::generate_cuid(*version)),
            Self::Ulid => Some(Self::generate_ulid()),
            Self::Nanoid(length) => Some(Self::generate_nanoid(length)),
            Self::Now => Some(Self::generate_now()),
            Self::Autoincrement => None,
            Self::DbGenerated => None,
            Self::Auto => None,
        }
    }

    /// A fresh ulid, rendered in its 26-character form.
    pub fn generate_ulid() -> (r: PrismaValue)
        ensures
            r matches PrismaValue::Text(s) && s@.len() == 26,
    {
        PrismaValue::Text(ulid_string())
    }

    /// A fresh cuid of the requested version.
    pub fn generate_cuid(version: u8) -> (r: PrismaValue)
        requires
            version == 1 || version == 2,
        ensures
            r matches PrismaValue::Text(_),
            version == 2 ==> (r matches PrismaValue::Text(s) && 1 <= s@.len() <= 24),
    {
        if version == 1 {
            PrismaValue::Text(cuid1_string())
        } else {
            PrismaValue::Text(cuid2_string())
        }
    }

    /// A fresh uuid of the requested version, in hyphenated form.
    pub fn generate_uuid(version: u8) -> (r: PrismaValue)
        requires
            version == 4 || version == 7,
        ensures
            r matches PrismaValue::Uuid(s) && s@.len() == 36,
    {
        if version == 4 {
            PrismaValue::Uuid(uuid_v4_string())
        } else {
            PrismaValue::Uuid(uuid_v7_string())
        }
    }

    /// A fresh nanoid of the requested length, 21 characters by default.
    pub fn generate_nanoid(length: &Option<u8>) -> (r: PrismaValue)
        ensures
            r matches PrismaValue::Text(s) && s@.len() == (match length {
                Some(n) => n as nat,
                None => 21 as nat,
            }),
    {
        match length {
            Some(n) => PrismaValue::Text(nanoid_string(*n as usize)),
            None => PrismaValue::Text(nanoid_string(21)),
        }
    }

    /// The current time as a date-time value.
    pub fn generate_now() -> (r: PrismaValue)
        ensures
            r matches PrismaValue::DateTime(_),
    {
        PrismaValue::DateTime(now_timestamp_millis())
    }

    /// The model of the type the generator's values decode as.
    pub open spec fn spec_return_type(self) -> Option<PrismaValueType> {
        match self {
            ValueGeneratorFn::Uuid(_) => Some(PrismaValueType::TextType),
            ValueGeneratorFn::Cuid(_) => Some(PrismaValueType::TextType),
            ValueGeneratorFn::Ulid => Some(PrismaValueType::TextType),
            ValueGeneratorFn::Nanoid(_) => Some(PrismaValueType::TextType),
            ValueGeneratorFn::Now => Some(PrismaValueType::DateType),
            _ => None,
        }
    }

    /// The type the generator's values decode as, if it produces any.
    pub fn return_type(&self) -> (r: Option<PrismaValueType>)
        ensures
            r == self.spec_return_type(),
    {
        match self {
            ValueGeneratorFn::Uuid(_) => Some(PrismaValueType::TextType),
            ValueGeneratorFn::Cuid(_) => Some(PrismaValueType::TextType),
            ValueGeneratorFn::Ulid => Some(PrismaValueType::TextType),
            ValueGeneratorFn::Nanoid(_) => Some(PrismaValueType::TextType),
            ValueGeneratorFn::Now => Some(PrismaValueType::DateType),
            ValueGeneratorFn::Autoincrement => None,
            ValueGeneratorFn::DbGenerated => None,
            ValueGeneratorFn::Auto => None,
        }
    }
}

/// Relies on ulid::Ulid::generate and its Display form: a ulid renders as
/// exactly 26 Crockford base32 characters.
#[verifier::external_body]
fn ulid_string() -> (r: String)
    ensures
        r@.len() == 26,
{
    ulid::Ulid::generate().to_string()
}

/// Relies on cuid::cuid1: a fresh collision-resistant identifier.
#[verifier::external_body]
fn cuid1_string() -> (r: String) {
    cuid::cuid1()
}

/// Relies on cuid::cuid2: a fresh collision-resistant identifier of a
/// starting letter plus a base36 hash truncated to 23 characters, so between
/// one and 24 characters in all.
#[verifier::external_body]
fn cuid2_string() -> (r: String)
    ensures
        1 <= r@.len() <= 24,
{
    cuid::cuid2()
}

/// Relies on uuid::Uuid::new_v4 and its Display form: a random uuid rendered
/// as 36 hyphenated hexadecimal characters.
#[verifier::external_body]
fn uuid_v4_string() -> (r: String)
    ensures
        r@.len() == 36,
{
    uuid::Uuid::new_v4().to_string()
}

/// Relies on uuid::Uuid::now_v7 and its Display form: a time-ordered uuid
/// rendered as 36 hyphenated hexadecimal characters.
#[verifier::external_body]
fn uuid_v7_string() -> (r: String)
    ensures
        r@.len() == 36,
{
    uuid::Uuid::now_v7().to_string()
}

/// Relies on nanoid::format with the url-safe 64-character alphabet: the
/// identifier holds exactly `len` characters, all ASCII.
#[verifier::external_body]
fn nanoid_string(len: usize) -> (r: String)
    ensures
        r@.len() == len,
{
    nanoid::format(nanoid::rngs::default, &nanoid::alphabet::SAFE, len)
}

/// Relies on chrono::Utc::now: the current time in milliseconds since the
/// epoch; nothing is promised of its value.
#[verifier::external_body]
fn now_timestamp_millis() -> (r: i64) {
    chrono::Utc::now().timestamp_millis()
}

impl ValueGenerator {
    /// Resolves a generator by name; unknown names fail with a message.
    pub fn new(name: String, args: Vec<PrismaValue>) -> (r: Result<Self, String>)
        ensures
            match r {
                Ok(g) => spec_generator_fn(name@, args@) == Some(g.generator) && g.name == name
                    && g.args == args,
                Err(_) => spec_generator_fn(name@, args@) is None,
            },
    {
        match ValueGeneratorFn::new(&name, &args) {
            Ok(generator) => Ok(ValueGenerator { name, args, generator }),
            Err(e) => Err(e),
        }
    }

    /// The `autoincrement()` generator.
    pub fn new_autoincrement() -> (r: Self)
        ensures
            r.name@ == "autoincrement"@,
            r.args@.len() == 0,
            r.generator == ValueGeneratorFn::Autoincrement,
    {
        ValueGenerator {
            name: String::from_str("autoincrement"),
            args: Vec::new(),
            generator: ValueGeneratorFn::Autoincrement,
        }
    }

    /// The `sequence(..)` generator, which issues values like autoincrement.
    pub fn new_sequence(args: Vec<PrismaValue>) -> (r: Self)
        ensures
            r.name@ == "sequence"@,
            r.args == args,
            r.generator == ValueGeneratorFn::Autoincrement,
    {
        ValueGenerator {
            name: String::from_str("sequence"),
            args,
            generator: ValueGeneratorFn::Autoincrement,
        }
    }

    /// The `dbgenerated(..)` generator: a description of only NUL characters
    /// counts as absent.
    pub fn new_dbgenerated(description: String) -> (r: Self)
        ensures
            r.name@ == "dbgenerated"@,
            r.generator == ValueGeneratorFn::DbGenerated,
            r.args@.len() == 0 || (r.args@.len() == 1 && r.args@[0] == PrismaValue::Text(
                description,
            )),
    {
        let name = String::from_str("dbgenerated");
        if Self::is_all_nul(description.as_str()) {
            ValueGenerator { name, args: Vec::new(), generator: ValueGeneratorFn::DbGenerated }
        } else {
            let mut args: Vec<PrismaValue> = Vec::new();
            args.push(PrismaValue::Text(description));
            ValueGenerator { name, args, generator: ValueGeneratorFn::DbGenerated }
        }
    }

    /// Whether the text's encoding consists only of NUL bytes (or is empty).
    fn is_all_nul(s: &str) -> (r: bool)
        ensures
            r == forall|i: int| 0 <= i < s.spec_bytes().len() ==> s.spec_bytes()[i] == 0,
    {
        let bytes = s.as_bytes();
        let mut i: usize = 0;
        while i < bytes.len()
            invariant
                i <= bytes@.len(),
                bytes@ == s.spec_bytes(),
                forall|j: int| 0 <= j < i ==> bytes@[j] == 0,
            decreases bytes@.len() - i,
        {
            if bytes[i] != 0 {
                return false;
            }
            i = i + 1;
        }
        true
    }

    /// The `auto()` generator.
    pub fn new_auto() -> (r: Self)
        ensures
            r.name@ == "auto"@,
            r.args@.len() == 0,
            r.generator == ValueGeneratorFn::Auto,
    {
        ValueGenerator {
            name: String::from_str("auto"),
            args: Vec::new(),
            generator: ValueGeneratorFn::Auto,
        }
    }

    /// The `now()` generator.
    pub fn new_now() -> (r: Self)
        ensures
            r.name@ == "now"@,
            r.args@.len() == 0,
            r.generator == ValueGeneratorFn::Now,
    {
        ValueGenerator {
            name: String::from_str("now"),
            args: Vec::new(),
            generator: ValueGeneratorFn::Now,
        }
    }

    /// The `ulid()` generator.
    pub fn new_ulid() -> (r: Self)
        ensures
            r.name@ == "ulid"@,
            r.args@.len() == 0,
            r.generator == ValueGeneratorFn::Ulid,
    {
        ValueGenerator {
            name: String::from_str("ulid"),
            args: Vec::new(),
            generator: ValueGeneratorFn::Ulid,
        }
    }

    /// The `cuid(version)` generator.
    pub fn new_cuid(version: u8) -> (r: Self)
        ensures
            r.name@ == "cuid"@,
            r.args@.len() == 1 && r.args@[0] == PrismaValue::Int(version as i64),
            r.generator == ValueGeneratorFn::Cuid(version),
    {
        let mut args: Vec<PrismaValue> = Vec::new();
        args.push(PrismaValue::Int(version as i64));
        ValueGenerator {
            name: String::from_str("cuid"),
            args,
            generator: ValueGeneratorFn::Cuid(version),
        }
    }

    /// The `uuid(version)` generator.
    pub fn new_uuid(version: u8) -> (r: Self)
        ensures
            r.name@ == "uuid"@,
            r.args@.len() == 1 && r.args@[0] == PrismaValue::Int(version as i64),
            r.generator == ValueGeneratorFn::Uuid(version),
    {
        let mut args: Vec<PrismaValue> = Vec::new();
        args.push(PrismaValue::Int(version as i64));
        ValueGenerator {
            name: String::from_str("uuid"),
            args,
            generator: ValueGeneratorFn::Uuid(version),
        }
    }

    /// The `nanoid(length?)` generator.
    pub fn new_nanoid(length: Option<u8>) -> (r: Self)
        ensures
            r.name@ == "nanoid"@,
            r.generator == ValueGeneratorFn::Nanoid(length),
            match length {
                Some(l) => r.args@.len() == 1 && r.args@[0] == PrismaValue::Int(l as i64),
                None => r.args@.len() == 0,
            },
    {
        let name = String::from_str("nanoid");
        match length {
            Some(l) => {
                let mut args: Vec<PrismaValue> = Vec::new();
                args.push(PrismaValue::Int(l as i64));
                ValueGenerator { name, args, generator: ValueGeneratorFn::Nanoid(Some(l)) }
            },
            None => ValueGenerator {
                name,
                args: Vec::new(),
                generator: ValueGeneratorFn::Nanoid(None),
            },
        }
    }

    /// The generator's name.
    pub fn name(&self) -> (r: &String)
        ensures
            r == &self.name,
    {
        &self.name
    }

    /// The generator's arguments.
    pub fn args(&self) -> (r: &Vec<PrismaValue>)
        ensures
            r == &self.args,
    {
        &self.args
    }

    /// The resolved generator.
    pub fn generator(&self) -> (r: ValueGeneratorFn)
        ensures
            r == self.generator,
    {
        self.generator
    }

    /// The description of a `dbgenerated(..)` default, when present.
    pub fn as_dbgenerated(&self) -> (r: Option<&String>)
        ensures
            match r {
                Some(s) => self.name@ == "dbgenerated"@ && self.args@.len() >= 1 && (
                self.args@[0] matches PrismaValue::Text(t) && t == s),
                None => !(self.name@ == "dbgenerated"@ && self.args@.len() >= 1
                    && self.args@[0] matches PrismaValue::Text(_)),
            },
    {
        if !self.is_dbgenerated() {
            return None;
        }
        if self.args.len() == 0 {
            return None;
        }
        self.args[0].as_string()
    }

    /// Produces a value as the generator defines, or `None` for the
    /// generators whose value only the database can produce.
    pub fn generate(&self) -> (r: Option<PrismaValue>)
        requires
            self.generator.spec_can_invoke(),
        ensures
            (self.generator matches ValueGeneratorFn::Autoincrement || self.generator matches
                ValueGeneratorFn::DbGenerated || self.generator matches ValueGeneratorFn::Auto)
                <==> r is None,
    {
        self.generator.invoke()
    }

    /// Whether this is the `dbgenerated(..)` generator.
    pub fn is_dbgenerated(&self) -> (r: bool)
        ensures
            r == (self.name@ == "dbgenerated"@),
    {
        self.name == String::from_str("dbgenerated")
    }

    /// Whether this generator issues values from the database's counter.
    pub fn is_autoincrement(&self) -> (r: bool)
        ensures
            r == (self.name@ == "autoincrement"@ || self.name@ == "sequence"@),
    {
        self.name == String::from_str("autoincrement") || self.name == String::from_str("sequence")
    }

    /// The type the generator's values decode as, if it produces any.
    pub fn return_type(&self) -> (r: Option<PrismaValueType>)
        ensures
            r == self.generator.spec_return_type(),
    {
        self.generator.return_type()
    }
}

impl PartialEq for ValueGenerator {
    /// Two generators are equal when their names and argument models agree;
    /// the resolved generator is derived and takes no part.
    fn eq(&self, other: &Self) -> (r: bool)
    {
        if !(self.name == other.name) {
            return false;
        }
        if self.args.len() != other.args.len() {
            proof {
                lemma_pvs_view(self.args@);
                lemma_pvs_view(other.args@);
            }
            return false;
        }
        let mut i: usize = 0;
        while i < self.args.len()
            invariant
                i <= self.args@.len(),
                self.args@.len() == other.args@.len(),
                forall|j: int|
                    0 <= j < i ==> #[trigger] pv_view(self.args@[j]) == pv_view(other.args@[j]),
            decreases self.args@.len() - i,
        {
            if !self.args[i].eq_value(&other.args[i]) {
                proof {
                    lemma_pvs_view(self.args@);
                    lemma_pvs_view(other.args@);
                    assert(pvs_view(self.args@)[i as int] != pvs_view(other.args@)[i as int]);
                }
                return false;
            }
            i = i + 1;
        }
        proof {
            lemma_pvs_view(self.args@);
            lemma_pvs_view(other.args@);
            assert(pvs_view(self.args@) =~= pvs_view(other.args@));
        }
        true
    }
}

impl vstd::std_specs::cmp::PartialEqSpecImpl for ValueGenerator {
    open spec fn obeys_eq_spec() -> bool {
        true
    }

    open spec fn eq_spec(&self, other: &Self) -> bool {
        self.name@ == other.name@ && pvs_view(self.args@) == pvs_view(other.args@)
    }
}

impl DefaultKind {
    /// Does this match an `autoincrement()` default? Unlike the generator's
    /// own check, a `sequence(..)` default does not count here.
    pub fn is_autoincrement(&self) -> (r: bool)
        ensures
            r == (*self matches DefaultKind::Expression(g) && g.name@ == "autoincrement"@),
    {
        match self {
            DefaultKind::Expression(generator) => generator.name == String::from_str(
                "autoincrement",
            ),
            _ => false,
        }
    }

    /// Does this match a `ulid()` default?
    pub fn is_ulid(&self) -> (r: bool)
        ensures
            r == (*self matches DefaultKind::Expression(g) && g.name@ == "ulid"@),
    {
        match self {
            DefaultKind::Expression(generator) => generator.name == String::from_str("ulid"),
            _ => false,
        }
    }

    /// Does this match a `cuid(..)` default?
    pub fn is_cuid(&self) -> (r: bool)
        ensures
            r == (*self matches DefaultKind::Expression(g) && g.name@ == "cuid"@),
    {
        match self {
            DefaultKind::Expression(generator) => generator.name == String::from_str("cuid"),
            _ => false,
        }
    }

    /// Does this match a `dbgenerated(..)` default?
    pub fn is_dbgenerated(&self) -> (r: bool)
        ensures
            r == (*self matches DefaultKind::Expression(g) && g.name@ == "dbgenerated"@),
    {
        match self {
            DefaultKind::Expression(generator) => generator.is_dbgenerated(),
            _ => false,
        }
    }

    /// Does this match a `nanoid(..)` default?
    pub fn is_nanoid(&self) -> (r: bool)
        ensures
            r == (*self matches DefaultKind::Expression(g) && g.name@ == "nanoid"@),
    {
        match self {
            DefaultKind::Expression(generator) => generator.name == String::from_str("nanoid"),
            _ => false,
        }
    }

    /// Does this match a `now()` default?
    pub fn is_now(&self) -> (r: bool)
        ensures
            r == (*self matches DefaultKind::Expression(g) && g.name@ == "now"@),
    {
        match self {
            DefaultKind::Expression(generator) => generator.name == String::from_str("now"),
            _ => false,
        }
    }

    /// Does this match a `uuid(..)` default?
    pub fn is_uuid(&self) -> (r: bool)
        ensures
            r == (*self matches DefaultKind::Expression(g) && g.name@ == "uuid"@),
    {
        match self {
            DefaultKind::Expression(generator) => generator.name == String::from_str("uuid"),
            _ => false,
        }
    }

    /// The contained static value; only for the `Single` variant.
    pub fn unwrap_single(self) -> (r: PrismaValue)
        requires
            self matches DefaultKind::Single(_),
        ensures
            self matches DefaultKind::Single(v) && r == v,
    {
        match self {
            DefaultKind::Single(val) => val,
            DefaultKind::Expression(_) => {
                proof {
                    assert(false);
                }
                PrismaValue::Null
            },
        }
    }

    /// The database-generated function of a primary-key default, if any:
    /// the rendering of the first argument of a `dbgenerated(..)` default.
    pub fn to_dbgenerated_func(&self) -> (r: Option<String>)
        ensures
            r is Some ==> (*self matches DefaultKind::Expression(g) && g.name@
                == "dbgenerated"@ && g.args@.len() >= 1),
            r matches Some(text) ==> (*self matches DefaultKind::Expression(g)
                && spec_display_value(pv_view(g.args@[0])) == Some(text@)),
    {
        match self {
            DefaultKind::Expression(expr) => {
                if expr.is_dbgenerated() && expr.args.len() >= 1 {
                    display_value(&expr.args[0])
                } else {
                    None
                }
            },
            _ => None,
        }
    }

    /// Either a copy of the contained static value, or the non-evaluated
    /// generator call; `None` for defaults only the database can produce.
    pub fn get(&self) -> (r: Option<PrismaValue>)
        ensures
            *self matches DefaultKind::Single(v) ==> (r matches Some(out) && out@ == v@),
            (*self matches DefaultKind::Expression(g) && (g.name@ == "dbgenerated"@ || g.name@
                == "autoincrement"@ || g.name@ == "sequence"@)) ==> r is None,
            forall|g: ValueGenerator|
                (*self == DefaultKind::Expression(g) && !(g.name@ == "dbgenerated"@ || g.name@
                    == "autoincrement"@ || g.name@ == "sequence"@)) ==> (r matches Some(out) && (
                out matches PrismaValue::GeneratorCall { name, args, return_type } && name@
                    == g.name@ && pvs_view(args@) == pvs_view(g.args@) && return_type == (match
                g.generator.spec_return_type() {
                    Some(t) => t,
                    None => PrismaValueType::Any,
                }))),
    {
        match self {
            DefaultKind::Single(v) => Some(v.clone()),
            DefaultKind::Expression(g) => {
                if g.is_dbgenerated() || g.is_autoincrement() {
                    None
                } else {
                    let return_type = match g.return_type() {
                        Some(t) => t,
                        None => PrismaValueType::Any,
                    };
                    Some(
                        PrismaValue::GeneratorCall {
                            name: String::from_str(g.name.as_str()),
                            args: clone_values(&g.args),
                            return_type,
                        },
                    )
                }
            },
        }
    }

    /// Either a copy of the contained static value, or a value freshly
    /// produced by the generator.
    pub fn get_evaluated(&self) -> (r: Option<PrismaValue>)
        requires
            *self matches DefaultKind::Expression(g) ==> g.generator.spec_can_invoke(),
        ensures
            *self matches DefaultKind::Single(v) ==> (r matches Some(out) && out@ == v@),
    {
        match self {
            DefaultKind::Single(v) => Some(v.clone()),
            DefaultKind::Expression(g) => g.generate(),
        }
    }
}

impl DefaultValue {
    /// The contained generator, for expression defaults.
    pub fn as_expression(&self) -> (r: Option<&ValueGenerator>)
        ensures
            match r {
                Some(g) => self.kind matches DefaultKind::Expression(e) && g == &e,
                None => !(self.kind matches DefaultKind::Expression(_)),
            },
    {
        match &self.kind {
            DefaultKind::Expression(expr) => Some(expr),
            _ => None,
        }
    }

    /// The contained static value, for single-value defaults.
    pub fn as_single(&self) -> (r: Option<&PrismaValue>)
        ensures
            match r {
                Some(v) => self.kind matches DefaultKind::Single(s) && v == &s,
                None => !(self.kind matches DefaultKind::Single(_)),
            },
    {
        match &self.kind {
            DefaultKind::Single(v) => Some(v),
            _ => None,
        }
    }

    /// Does this match an `autoincrement()` default? Unlike the generator's
    /// own check, a `sequence(..)` default does not count here.
    pub fn is_autoincrement(&self) -> (r: bool)
        ensures
            r == (self.kind matches DefaultKind::Expression(g) && g.name@ == "autoincrement"@),
    {
        self.kind.is_autoincrement()
    }

    /// Does this match a `ulid()` default?
    pub fn is_ulid(&self) -> (r: bool)
        ensures
            r == (self.kind matches DefaultKind::Expression(g) && g.name@ == "ulid"@),
    {
        self.kind.is_ulid()
    }

    /// Does this match a `cuid(..)` default?
    pub fn is_cuid(&self) -> (r: bool)
        ensures
            r == (self.kind matches DefaultKind::Expression(g) && g.name@ == "cuid"@),
    {
        self.kind.is_cuid()
    }

    /// Does this match a `dbgenerated(..)` default?
    pub fn is_dbgenerated(&self) -> (r: bool)
        ensures
            r == (self.kind matches DefaultKind::Expression(g) && g.name@ == "dbgenerated"@),
    {
        self.kind.is_dbgenerated()
    }

    /// Does this match a `nanoid(..)` default?
    pub fn is_nanoid(&self) -> (r: bool)
        ensures
            r == (self.kind matches DefaultKind::Expression(g) && g.name@ == "nanoid"@),
    {
        self.kind.is_nanoid()
    }

    /// Does this match a `now()` default?
    pub fn is_now(&self) -> (r: bool)
        ensures
            r == (self.kind matches DefaultKind::Expression(g) && g.name@ == "now"@),
    {
        self.kind.is_now()
    }

    /// Does this match a `uuid(..)` default?
    pub fn is_uuid(&self) -> (r: bool)
        ensures
            r == (self.kind matches DefaultKind::Expression(g) && g.name@ == "uuid"@),
    {
        self.kind.is_uuid()
    }

    /// A default produced by a generator expression.
    pub fn new_expression(generator: ValueGenerator) -> (r: Self)
        ensures
            r.kind matches DefaultKind::Expression(g) && g == generator,
            r.db_name is None,
    {
        DefaultValue { kind: DefaultKind::Expression(generator), db_name: None }
    }

    /// A default of a static value.
    pub fn new_single(value: PrismaValue) -> (r: Self)
        ensures
            r.kind matches DefaultKind::Single(v) && v == value,
            r.db_name is None,
    {
        DefaultValue { kind: DefaultKind::Single(value), db_name: None }
    }

    /// Sets the default value constraint name.
    pub fn set_db_name(&mut self, name: String)
        ensures
            final(self).db_name == Some(name),
            final(self).kind == old(self).kind,
    {
        self.db_name = Some(name);
    }

    /// The default value constraint name.
    pub fn db_name(&self) -> (r: Option<&String>)
        ensures
            r == match self.db_name {
                Some(ref n) => Some(n),
                None => None::<&String>,
            },
    {
        self.db_name.as_ref()
    }
}

} // verus!
