use vstd::prelude::*;

verus! {

/// The kind of a value, used to describe a plugin's schema without building values.
#[derive(Clone, Copy, Debug, PartialEq, Eq, Structural)]
pub enum PluginType {
    Bool,
    Int,
    UInt,
    Double,
    String,
}

/// A value as it crosses the boundary between host and plugin.
///
/// A double travels as its IEEE-754 bit pattern. A string travels as the bytes of a
/// NUL-terminated string, terminator excluded; the receiver decodes them.
#[derive(Clone, Debug, PartialEq, Eq)]
pub enum PluginValue {
    Bool(bool),
    Int(i64),
    UInt(u64),
    Double(u64),
    String(Vec<u8>),
}

/// The mathematical model of a value, on either side of the boundary.
pub ghost enum ValueModel {
    Bool(bool),
    Int(i64),
    UInt(u64),
    Double(u64),
    String(Seq<u8>),
}

impl ValueModel {
    pub open spec fn tag(self) -> PluginType {
        match self {
            ValueModel::Bool(_) => PluginType::Bool,
            ValueModel::Int(_) => PluginType::Int,
            ValueModel::UInt(_) => PluginType::UInt,
            ValueModel::Double(_) => PluginType::Double,
            ValueModel::String(_) => PluginType::String,
        }
    }
}

impl View for PluginValue {
    type V = ValueModel;

    open spec fn view(&self) -> ValueModel {
        match self {
            PluginValue::Bool(b) => ValueModel::Bool(*b),
            PluginValue::Int(i) => ValueModel::Int(*i),
            PluginValue::UInt(u) => ValueModel::UInt(*u),
            PluginValue::Double(d) => ValueModel::Double(*d),
            PluginValue::String(s) => ValueModel::String(s@),
        }
    }
}

impl PluginValue {
    /// The tag of this value.
    pub fn tag(&self) -> (r: PluginType)
        ensures
            r == self@.tag(),
    {
        match self {
            PluginValue::Bool(_) => PluginType::Bool,
            PluginValue::Int(_) => PluginType::Int,
            PluginValue::UInt(_) => PluginType::UInt,
            PluginValue::Double(_) => PluginType::Double,
            PluginValue::String(_) => PluginType::String,
        }
    }

    /// Takes ownership of the value's payload: the receiver of a transferred value
    /// becomes the only owner of its string bytes, released once when it is dropped.
    pub fn to_owned(self) -> (r: OwnedPluginValue)
        ensures
            r@ == self@,
    {
        match self {
            PluginValue::Bool(b) => OwnedPluginValue::Bool(b),
            PluginValue::Int(i) => OwnedPluginValue::Int(i),
            PluginValue::UInt(u) => OwnedPluginValue::UInt(u),
            PluginValue::Double(d) => OwnedPluginValue::Double(d),
            PluginValue::String(s) => OwnedPluginValue::String(s),
        }
    }
}

/// A value held by the host after a call, owning every payload it carries.
#[derive(Clone, Debug, PartialEq, Eq)]
pub enum OwnedPluginValue {
    Bool(bool),
    Int(i64),
    UInt(u64),
    Double(u64),
    String(Vec<u8>),
}

impl View for OwnedPluginValue {
    type V = ValueModel;

    open spec fn view(&self) -> ValueModel {
        match self {
            OwnedPluginValue::Bool(b) => ValueModel::Bool(*b),
            OwnedPluginValue::Int(i) => ValueModel::Int(*i),
            OwnedPluginValue::UInt(u) => ValueModel::UInt(*u),
            OwnedPluginValue::Double(d) => ValueModel::Double(*d),
            OwnedPluginValue::String(s) => ValueModel::String(s@),
        }
    }
}

/// The outcome of one invocation: a value, or the bytes of an error message whose
/// ownership passes to the caller. Exactly one of the two.
#[derive(Clone, Debug, PartialEq, Eq)]
pub enum PluginResult {
    Value(PluginValue),
    Error(Vec<u8>),
}

pub ghost enum ResultModel {
    Value(ValueModel),
    Error(Seq<u8>),
}

impl View for PluginResult {
    type V = ResultModel;

    open spec fn view(&self) -> ResultModel {
        match self {
            PluginResult::Value(v) => ResultModel::Value(v@),
            PluginResult::Error(m) => ResultModel::Error(m@),
        }
    }
}

/// The models of a sequence of values, position by position.
pub open spec fn values_model(v: Seq<PluginValue>) -> Seq<ValueModel> {
    v.map_values(|x: PluginValue| x@)
}

/// True when no byte is zero, so that the bytes form a C string once terminated.
pub open spec fn no_nul(b: Seq<u8>) -> bool {
    forall|i: int| 0 <= i < b.len() ==> b[i] != 0u8
}

/// Whether no byte of `b` is zero.
pub fn has_no_nul(b: &Vec<u8>) -> (r: bool)
    ensures
        r == no_nul(b@),
{
    let mut i: usize = 0;
    while i < b.len()
        invariant
            i <= b@.len(),
            forall|j: int| 0 <= j < i ==> b@[j] != 0u8,
        decreases b@.len() - i,
    {
        if b[i] == 0 {
            return false;
        }
        i = i + 1;
    }
    true
}

/// The schema a plugin declares: its name, the ordered kinds of its arguments, and
/// the kind of its result.
#[derive(Clone, Debug, PartialEq, Eq)]
pub struct PluginMetadata {
    pub name: String,
    pub arg_types: Vec<PluginType>,
    pub return_type: PluginType,
}

pub ghost struct MetadataModel {
    pub name: Seq<char>,
    pub arg_types: Seq<PluginType>,
    pub return_type: PluginType,
}

impl View for PluginMetadata {
    type V = MetadataModel;

    open spec fn view(&self) -> MetadataModel {
        MetadataModel { name: self.name@, arg_types: self.arg_types@, return_type: self.return_type }
    }
}

} // verus!
