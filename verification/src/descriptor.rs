//! The identity of an instrument.
use crate::number::NumberKind;
use std::collections::hash_map::DefaultHasher;
use std::hash::Hasher;
use vstd::prelude::*;
use vstd::std_specs::hash::DefaultHasherAdditionalSpecFns;
use vstd::string::StringSliceAdditionalSpecFns;

verus! {

/// The kinds of metric instruments.
#[derive(Clone, Copy, Debug, PartialEq, Eq, Structural, Hash)]
pub enum InstrumentKind {
    /// A synchronous per-request recorder of non-additive measurements.
    ValueRecorder,
    /// An asynchronous per-interval recorder of non-additive measurements.
    ValueObserver,
    /// A synchronous per-request part of a monotonic sum.
    Counter,
    /// A synchronous per-request part of a non-monotonic sum.
    UpDownCounter,
    /// An asynchronous per-interval recorder of a monotonic sum.
    SumObserver,
    /// An asynchronous per-interval recorder of a non-monotonic sum.
    UpDownSumObserver,
}

impl InstrumentKind {
    /// Whether instruments of this kind only ever count upwards.
    pub open spec fn monotonic(self) -> bool {
        self == InstrumentKind::Counter || self == InstrumentKind::SumObserver
    }

    /// Whether instruments of this kind record or observe single values,
    /// which are not added up.
    pub open spec fn grouping(self) -> bool {
        self == InstrumentKind::ValueRecorder || self == InstrumentKind::ValueObserver
    }

    /// The byte that stands for this kind where an instrument is hashed.
    pub open spec fn tag(self) -> u8 {
        match self {
            InstrumentKind::ValueRecorder => 0,
            InstrumentKind::ValueObserver => 1,
            InstrumentKind::Counter => 2,
            InstrumentKind::UpDownCounter => 3,
            InstrumentKind::SumObserver => 4,
            InstrumentKind::UpDownSumObserver => 5,
        }
    }
}

/// The unit of the data of an instrument.
#[derive(Debug)]
pub struct Unit(pub String);

impl Clone for Unit {
    fn clone(&self) -> (r: Unit)
        ensures
            r == *self,
    {
        Unit(self.0.clone())
    }
}

impl Unit {
    /// The unit's name.
    pub fn as_str(&self) -> (r: &str)
        ensures
            r@ == self.0@,
    {
        self.0.as_str()
    }
}

/// The options of an instrument of any kind.
#[derive(Debug)]
pub struct Config {
    /// What the instrument measures, in words.
    pub description: Option<String>,
    /// The unit of its data.
    pub unit: Option<Unit>,
    /// The name of the meter that created it.
    pub library_name: String,
}

impl Clone for Config {
    fn clone(&self) -> (r: Config)
        ensures
            r == *self,
    {
        Config {
            description: match &self.description {
                Some(d) => Some(d.clone()),
                None => None,
            },
            unit: match &self.unit {
                Some(u) => Some(u.clone()),
                None => None,
            },
            library_name: self.library_name.clone(),
        }
    }
}

impl Config {
    /// A configuration that holds a library name and nothing else.
    pub fn with_library_name(library_name: String) -> (r: Config)
        ensures
            r == (Config { description: None, unit: None, library_name }),
    {
        Config { description: None, unit: None, library_name }
    }

    /// What the instrument measures, if that was said.
    pub fn description(&self) -> (r: Option<&String>)
        ensures
            r.is_some() == self.description.is_some(),
            r.is_some() ==> *r.unwrap() == self.description.unwrap(),
    {
        self.description.as_ref()
    }

    /// The unit of the instrument's data, if it has one.
    pub fn unit(&self) -> (r: Option<&Unit>)
        ensures
            r.is_some() == self.unit.is_some(),
            r.is_some() ==> *r.unwrap() == self.unit.unwrap(),
    {
        self.unit.as_ref()
    }

    /// The name of the meter that created the instrument.
    pub fn library_name(&self) -> (r: &String)
        ensures
            *r == self.library_name,
    {
        &self.library_name
    }
}

/// All that describes an instrument: its name, what it is, how its numbers
/// are read, and its options.
#[derive(Debug)]
pub struct Descriptor {
    /// The instrument's name.
    pub name: String,
    /// What kind of instrument it is.
    pub instrument_kind: InstrumentKind,
    /// How its numbers are read.
    pub number_kind: NumberKind,
    /// Its options.
    pub config: Config,
}

impl Clone for Descriptor {
    fn clone(&self) -> (r: Descriptor)
        ensures
            r == *self,
    {
        Descriptor {
            name: self.name.clone(),
            instrument_kind: self.instrument_kind,
            number_kind: self.number_kind,
            config: self.config.clone(),
        }
    }
}

impl Descriptor {
    /// Whether two descriptors hold the same in every field.
    pub open spec fn same_as(&self, other: &Descriptor) -> bool {
        &&& self.name@ == other.name@
        &&& self.instrument_kind == other.instrument_kind
        &&& self.number_kind == other.number_kind
        &&& self.config.library_name@ == other.config.library_name@
        &&& self.config.description.is_some() == other.config.description.is_some()
        &&& self.config.description.is_some() ==> self.config.description.unwrap()@
            == other.config.description.unwrap()@
        &&& self.config.unit.is_some() == other.config.unit.is_some()
        &&& self.config.unit.is_some() ==> self.config.unit.unwrap().0@ == other.config.unit.unwrap().0@
    }

    /// Descriptors that hold the same in every field have the same digest,
    /// and so are one instrument to the engine.
    pub proof fn same_descriptors_have_one_digest(&self, other: &Descriptor)
        requires
            self.same_as(other),
        ensures
            self.hash_writes() == other.hash_writes(),
            self.digest() == other.digest(),
    {
    }
}

impl PartialEq for Descriptor {
    fn eq(&self, other: &Descriptor) -> (r: bool) {
        let descriptions = match (&self.config.description, &other.config.description) {
            (Some(a), Some(b)) => *a == *b,
            (None, None) => true,
            _ => false,
        };
        let units = match (&self.config.unit, &other.config.unit) {
            (Some(a), Some(b)) => a.0 == b.0,
            (None, None) => true,
            _ => false,
        };
        self.name == other.name && self.instrument_kind == other.instrument_kind && self.number_kind
            == other.number_kind && self.config.library_name == other.config.library_name
            && descriptions && units
    }
}

impl vstd::std_specs::cmp::PartialEqSpecImpl for Descriptor {
    open spec fn obeys_eq_spec() -> bool {
        true
    }

    open spec fn eq_spec(&self, other: &Descriptor) -> bool {
        self.same_as(other)
    }
}

/// What hashing a text writes: its bytes, then a byte that ends it.
pub open spec fn text_writes(text: Seq<char>) -> Seq<Seq<u8>> {
    seq![vstd::utf8::encode_utf8(text), seq![0xffu8]]
}

/// What hashing an optional text writes: a byte that says whether it is
/// there, then the text.
pub open spec fn optional_text_writes(text: Option<Seq<char>>) -> Seq<Seq<u8>> {
    match text {
        Some(t) => seq![seq![1u8]] + text_writes(t),
        None => seq![seq![0u8]],
    }
}

/// Writes one byte to a hasher.
pub fn write_byte(state: &mut DefaultHasher, byte: u8)
    ensures
        final(state)@ == old(state)@.push(seq![byte]),
{
    let mut one: Vec<u8> = Vec::new();
    one.push(byte);
    state.write(one.as_slice());
    assert(one@ =~= seq![byte]);
}

/// Writes a text to a hasher.
pub fn write_text(state: &mut DefaultHasher, text: &str)
    ensures
        final(state)@ == old(state)@ + text_writes(text@),
{
    state.write(text.as_bytes());
    write_byte(state, 0xff);
    assert(final(state)@ =~= old(state)@ + text_writes(text@));
}

impl Descriptor {
    /// A descriptor without description or unit.
    pub fn new(
        name: String,
        library_name: String,
        instrument_kind: InstrumentKind,
        number_kind: NumberKind,
    ) -> (r: Descriptor)
        ensures
            r == (Descriptor {
                name,
                instrument_kind,
                number_kind,
                config: Config { description: None, unit: None, library_name },
            }),
    {
        Descriptor { name, instrument_kind, number_kind, config: Config::with_library_name(library_name) }
    }

    /// The instrument's name.
    pub fn name(&self) -> (r: &str)
        ensures
            r@ == self.name@,
    {
        self.name.as_str()
    }

    /// What kind of instrument it is.
    pub fn instrument_kind(&self) -> (r: &InstrumentKind)
        ensures
            *r == self.instrument_kind,
    {
        &self.instrument_kind
    }

    /// How the instrument's numbers are read.
    pub fn number_kind(&self) -> (r: &NumberKind)
        ensures
            *r == self.number_kind,
    {
        &self.number_kind
    }

    /// What the instrument measures, if that was said.
    pub fn description(&self) -> (r: Option<&String>)
        ensures
            r.is_some() == self.config.description.is_some(),
            r.is_some() ==> *r.unwrap() == self.config.description.unwrap(),
    {
        self.config.description.as_ref()
    }

    /// Gives the instrument a description, in place of any it had.
    pub fn set_description(&mut self, description: String)
        ensures
            *final(self) == (Descriptor {
                config: Config { description: Some(description), ..old(self).config },
                ..*old(self)
            }),
    {
        self.config.description = Some(description);
    }

    /// The unit of the instrument's data, if it has one.
    pub fn unit(&self) -> (r: Option<&str>)
        ensures
            r.is_some() == self.config.unit.is_some(),
            r.is_some() ==> r.unwrap()@ == self.config.unit.unwrap().0@,
    {
        match &self.config.unit {
            Some(unit) => Some(unit.as_str()),
            None => None,
        }
    }

    /// The name of the meter that created the instrument.
    pub fn library_name(&self) -> (r: &str)
        ensures
            r@ == self.config.library_name@,
    {
        self.config.library_name.as_str()
    }

    /// What hashing this descriptor writes: every field, in the order in
    /// which the fields are declared.
    pub open spec fn hash_writes(&self) -> Seq<Seq<u8>> {
        text_writes(self.name@) + seq![seq![self.instrument_kind.tag()]] + seq![
            seq![
                match self.number_kind {
                    NumberKind::F64 => 0u8,
                    NumberKind::U64 => 1u8,
                },
            ],
        ] + optional_text_writes(
            match self.config.description {
                Some(d) => Some(d@),
                None => None,
            },
        ) + optional_text_writes(
            match self.config.unit {
                Some(u) => Some(u.0@),
                None => None,
            },
        ) + text_writes(self.config.library_name@)
    }

    /// The digest of this descriptor alone.
    pub open spec fn digest(&self) -> u64 {
        DefaultHasher::spec_finish(self.hash_writes())
    }

    /// Feeds every field of this descriptor to a hasher.
    pub fn hash(&self, state: &mut DefaultHasher)
        ensures
            final(state)@ == old(state)@ + self.hash_writes(),
    {
        write_text(state, self.name.as_str());
        let kind_tag: u8 = match self.instrument_kind {
            InstrumentKind::ValueRecorder => 0,
            InstrumentKind::ValueObserver => 1,
            InstrumentKind::Counter => 2,
            InstrumentKind::UpDownCounter => 3,
            InstrumentKind::SumObserver => 4,
            InstrumentKind::UpDownSumObserver => 5,
        };
        write_byte(state, kind_tag);
        let number_tag: u8 = match self.number_kind {
            NumberKind::F64 => 0,
            NumberKind::U64 => 1,
        };
        write_byte(state, number_tag);
        match &self.config.description {
            Some(d) => {
                write_byte(state, 1);
                write_text(state, d.as_str());
            },
            None => {
                write_byte(state, 0);
            },
        }
        match &self.config.unit {
            Some(u) => {
                write_byte(state, 1);
                write_text(state, u.as_str());
            },
            None => {
                write_byte(state, 0);
            },
        }
        write_text(state, self.config.library_name.as_str());
        assert(final(state)@ =~= old(state)@ + self.hash_writes());
    }
}

} // verus!
