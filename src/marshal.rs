use vstd::prelude::*;
use vstd::slice::slice_to_vec;
use vstd::utf8::*;

use crate::parse::{
    parse_bool, parse_i64, parse_u64, spec_parse_bool, spec_parse_i64, spec_parse_u64,
};
use crate::value::{has_no_nul, no_nul, values_model, PluginType, PluginValue, ValueModel};

verus! {

/// One argument as the host received it: its text, and the bit pattern of that text
/// read as a double by the host's float reader, where that reading succeeded.
#[derive(Clone, Debug, PartialEq, Eq)]
pub struct HostArg {
    pub text: String,
    pub double_bits: Option<u64>,
}

/// Why the host refused to build an argument list.
#[derive(Clone, Copy, Debug, PartialEq, Eq, Structural)]
pub enum MarshalError {
    /// The number of arguments differs from the number the schema declares.
    CountMismatch { expected: usize, got: usize },
    /// The argument at `index` does not read as a value of kind `kind`.
    InvalidArg { index: usize, kind: PluginType },
}

/// The value an argument becomes under a declared kind, if it reads as one. A string
/// is passed on as its UTF-8 bytes, which must hold no NUL to form a C string.
pub open spec fn arg_value(text: Seq<char>, double_bits: Option<u64>, tag: PluginType) -> Option<
    ValueModel,
> {
    match tag {
        PluginType::Bool => match spec_parse_bool(text) {
            Some(b) => Some(ValueModel::Bool(b)),
            None => None,
        },
        PluginType::Int => match spec_parse_i64(text) {
            Some(i) => Some(ValueModel::Int(i)),
            None => None,
        },
        PluginType::UInt => match spec_parse_u64(text) {
            Some(u) => Some(ValueModel::UInt(u)),
            None => None,
        },
        PluginType::Double => match double_bits {
            Some(d) => Some(ValueModel::Double(d)),
            None => None,
        },
        PluginType::String => if no_nul(encode_utf8(text)) {
            Some(ValueModel::String(encode_utf8(text)))
        } else {
            None
        },
    }
}

pub open spec fn host_arg_value(a: HostArg, tag: PluginType) -> Option<ValueModel> {
    arg_value(a.text@, a.double_bits, tag)
}

/// The values of the first `k` arguments, or the first of them that fails to read.
pub open spec fn marshal_prefix(args: Seq<HostArg>, types: Seq<PluginType>, k: nat) -> Result<
    Seq<ValueModel>,
    MarshalError,
>
    decreases k,
{
    if k == 0 {
        Ok(Seq::empty())
    } else {
        match marshal_prefix(args, types, (k - 1) as nat) {
            Err(e) => Err(e),
            Ok(vs) => match host_arg_value(args[k - 1], types[k - 1]) {
                Some(v) => Ok(vs.push(v)),
                None => Err(
                    MarshalError::InvalidArg { index: (k - 1) as usize, kind: types[k - 1] },
                ),
            },
        }
    }
}

/// Marshaling as a whole: the count is checked first, then each argument in order,
/// stopping at the first that fails.
pub open spec fn marshal_model(args: Seq<HostArg>, types: Seq<PluginType>) -> Result<
    Seq<ValueModel>,
    MarshalError,
> {
    if args.len() != types.len() {
        Err(MarshalError::CountMismatch { expected: types.len() as usize, got: args.len() as usize })
    } else {
        marshal_prefix(args, types, args.len())
    }
}

/// Reads one argument under its declared kind.
pub fn marshal_arg(arg: &HostArg, tag: PluginType) -> (r: Option<PluginValue>)
    ensures
        match r {
            Some(v) => host_arg_value(*arg, tag) == Some(v@),
            None => host_arg_value(*arg, tag) is None,
        },
{
    match tag {
        PluginType::Bool => match parse_bool(arg.text.as_str()) {
            Some(b) => Some(PluginValue::Bool(b)),
            None => None,
        },
        PluginType::Int => match parse_i64(arg.text.as_str()) {
            Some(i) => Some(PluginValue::Int(i)),
            None => None,
        },
        PluginType::UInt => match parse_u64(arg.text.as_str()) {
            Some(u) => Some(PluginValue::UInt(u)),
            None => None,
        },
        PluginType::Double => match arg.double_bits {
            Some(d) => Some(PluginValue::Double(d)),
            None => None,
        },
        PluginType::String => {
            let bytes = slice_to_vec(arg.text.as_str().as_bytes());
            if has_no_nul(&bytes) {
                Some(PluginValue::String(bytes))
            } else {
                None
            }
        },
    }
}

/// Builds the argument list for a call from the host's arguments and the schema's
/// argument kinds. A count mismatch is reported before any argument is read; then
/// the first argument that does not read under its kind is reported. On success the
/// values match the schema in number and kind.
pub fn marshal_args(args: &Vec<HostArg>, arg_types: &Vec<PluginType>) -> (r: Result<
    Vec<PluginValue>,
    MarshalError,
>)
    ensures
        match r {
            Ok(vs) => marshal_model(args@, arg_types@) == Ok::<Seq<ValueModel>, MarshalError>(
                values_model(vs@),
            ),
            Err(e) => marshal_model(args@, arg_types@) == Err::<Seq<ValueModel>, MarshalError>(e),
        },
        r matches Ok(vs) ==> vs@.len() == arg_types@.len() && forall|i: int|
            0 <= i < vs@.len() ==> (#[trigger] vs@[i])@.tag() == arg_types@[i],
{
    if args.len() != arg_types.len() {
        return Err(MarshalError::CountMismatch { expected: arg_types.len(), got: args.len() });
    }
    let mut out: Vec<PluginValue> = Vec::new();
    let mut i: usize = 0;
    assert(values_model(out@) =~= Seq::<ValueModel>::empty());
    while i < args.len()
        invariant
            args@.len() == arg_types@.len(),
            i <= args@.len(),
            out@.len() == i,
            marshal_prefix(args@, arg_types@, i as nat) == Ok::<Seq<ValueModel>, MarshalError>(
                values_model(out@),
            ),
            forall|j: int| 0 <= j < i ==> (#[trigger] out@[j])@.tag() == arg_types@[j],
        decreases args@.len() - i,
    {
        match marshal_arg(&args[i], arg_types[i]) {
            Some(v) => {
                let ghost before = out@;
                out.push(v);
                assert(values_model(out@) =~= values_model(before).push(v@));
            },
            None => {
                proof {
                    lemma_prefix_err_stays(args@, arg_types@, (i + 1) as nat, args@.len());
                }
                return Err(MarshalError::InvalidArg { index: i, kind: arg_types[i] });
            },
        }
        i = i + 1;
    }
    Ok(out)
}

/// An argument list whose length differs from the schema's is refused, whatever the
/// arguments hold, so no call is made.
pub proof fn lemma_count_mismatch_rejected(args: Seq<HostArg>, types: Seq<PluginType>)
    requires
        args.len() != types.len(),
    ensures
        marshal_model(args, types) == Err::<Seq<ValueModel>, MarshalError>(
            MarshalError::CountMismatch { expected: types.len() as usize, got: args.len() as usize },
        ),
{
}

proof fn lemma_prefix_err_shape(args: Seq<HostArg>, types: Seq<PluginType>, k: nat)
    ensures
        marshal_prefix(args, types, k) is Err ==> (marshal_prefix(args, types, k) matches Err(
            MarshalError::InvalidArg { index, kind },
        ) && index < k),
    decreases k,
{
    if k > 0 {
        lemma_prefix_err_shape(args, types, (k - 1) as nat);
    }
}

proof fn lemma_prefix_err_stays(args: Seq<HostArg>, types: Seq<PluginType>, k: nat, m: nat)
    requires
        k <= m,
        marshal_prefix(args, types, k) is Err,
    ensures
        marshal_prefix(args, types, m) == marshal_prefix(args, types, k),
    decreases m - k,
{
    if k < m {
        lemma_prefix_err_stays(args, types, k, (m - 1) as nat);
    }
}

proof fn lemma_prefix_fails_from(args: Seq<HostArg>, types: Seq<PluginType>, i: int, k: nat)
    requires
        0 <= i < k <= args.len(),
        k <= types.len(),
        host_arg_value(args[i], types[i]) is None,
    ensures
        marshal_prefix(args, types, k) matches Err(MarshalError::InvalidArg { index, kind }) && index
            <= i,
    decreases k,
{
    if k - 1 > i {
        lemma_prefix_fails_from(args, types, i, (k - 1) as nat);
    } else {
        lemma_prefix_err_shape(args, types, (k - 1) as nat);
    }
}

/// An argument that does not read under its declared kind makes marshaling fail:
/// the refusal names that position or an earlier failing one, and no argument list
/// is produced, so the plugin is never reached.
pub proof fn lemma_unreadable_arg_rejected(args: Seq<HostArg>, types: Seq<PluginType>, i: int)
    requires
        args.len() == types.len(),
        0 <= i < args.len(),
        host_arg_value(args[i], types[i]) is None,
    ensures
        marshal_model(args, types) matches Err(MarshalError::InvalidArg { index, kind }) && index
            <= i,
{
    lemma_prefix_fails_from(args, types, i, args.len());
}

} // verus!
