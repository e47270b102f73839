use vstd::prelude::*;
use vstd::slice::slice_to_vec;
use vstd::string::*;
use vstd::utf8::*;

use crate::value::{
    no_nul, has_no_nul, values_model, MetadataModel, PluginMetadata, PluginResult, PluginType,
    PluginValue, ResultModel, ValueModel,
};

verus! {

broadcast use {decode_utf8_encode_utf8, encode_utf8_decode_utf8, encode_utf8_valid_utf8};

/// `n` copies of `s`, one after another.
pub open spec fn repeat_seq<A>(s: Seq<A>, n: nat) -> Seq<A>
    decreases n,
{
    if n == 0 {
        Seq::empty()
    } else {
        repeat_seq(s, (n - 1) as nat) + s
    }
}

/// The largest number of bytes a single allocation may hold.
pub open spec fn fits_allocation(len: nat, count: nat) -> bool {
    len * count <= isize::MAX as int
}

/// The schema of the example plugin: `repeat(String, UInt) -> String`.
pub open spec fn repeat_metadata() -> MetadataModel {
    MetadataModel {
        name: "repeat"@,
        arg_types: seq![PluginType::String, PluginType::UInt],
        return_type: PluginType::String,
    }
}

/// Returns the example plugin's schema. It is built from constants, so every call
/// gives the same schema.
pub fn plugin_metadata() -> (r: PluginMetadata)
    ensures
        r@ == repeat_metadata(),
{
    let name = "repeat".to_owned();
    let arg_types = vec![PluginType::String, PluginType::UInt];
    proof {
        assert(arg_types@ =~= seq![PluginType::String, PluginType::UInt]);
    }
    PluginMetadata { name, arg_types, return_type: PluginType::String }
}

/// Why the entry point refused or could not complete a call.
#[derive(Clone, Copy, Debug, PartialEq, Eq, Structural)]
pub enum EntryFault {
    ArgCount,
    Arg0NotString,
    Arg1NotUInt,
    Arg0NotUtf8,
    Arg0HasNul,
    /// The computation would have faulted: its result cannot be allocated.
    Fault,
}

impl EntryFault {
    pub open spec fn spec_message(self) -> Seq<char> {
        match self {
            EntryFault::ArgCount => "args_len should be 2"@,
            EntryFault::Arg0NotString => "arg0 is invalid; expected String"@,
            EntryFault::Arg1NotUInt => "arg1 is invalid; expected UInt"@,
            EntryFault::Arg0NotUtf8 => "arg0 is invalid; expected valid UTF-8 string"@,
            EntryFault::Arg0HasNul => "arg0 is invalid; expected a string without NUL bytes"@,
            EntryFault::Fault => "function panicked"@,
        }
    }

    /// The message the entry point reports for this fault.
    pub fn message(&self) -> (r: &'static str)
        ensures
            r@ == self.spec_message(),
    {
        match self {
            EntryFault::ArgCount => "args_len should be 2",
            EntryFault::Arg0NotString => "arg0 is invalid; expected String",
            EntryFault::Arg1NotUInt => "arg1 is invalid; expected UInt",
            EntryFault::Arg0NotUtf8 => "arg0 is invalid; expected valid UTF-8 string",
            EntryFault::Arg0HasNul => "arg0 is invalid; expected a string without NUL bytes",
            EntryFault::Fault => "function panicked",
        }
    }
}

/// What the entry point makes of its arguments: the bytes of the returned string,
/// or the first check that failed, in the order the entry point makes them.
pub open spec fn entry_outcome(args: Seq<ValueModel>) -> Result<Seq<u8>, EntryFault> {
    if args.len() != 2 {
        Err(EntryFault::ArgCount)
    } else if !(args[0] is String) {
        Err(EntryFault::Arg0NotString)
    } else if !(args[1] is UInt) {
        Err(EntryFault::Arg1NotUInt)
    } else {
        let b = args[0]->String_0;
        let n = args[1]->UInt_0;
        if !valid_utf8(b) {
            Err(EntryFault::Arg0NotUtf8)
        } else if !no_nul(b) {
            Err(EntryFault::Arg0HasNul)
        } else if !fits_allocation(b.len(), n as nat) {
            Err(EntryFault::Fault)
        } else {
            Ok(encode_utf8(repeat_seq(decode_utf8(b), n as nat)))
        }
    }
}

/// The result the entry point hands back for `args`.
pub open spec fn entry_result(args: Seq<ValueModel>) -> ResultModel {
    match entry_outcome(args) {
        Ok(b) => ResultModel::Value(ValueModel::String(b)),
        Err(f) => ResultModel::Error(encode_utf8(f.spec_message())),
    }
}

/// Relies on `String::from_utf8`: it succeeds exactly when the bytes are valid
/// UTF-8, and the text it then holds is what those bytes encode.
#[verifier::external_body]
fn decode_text(b: &Vec<u8>) -> (r: Option<String>)
    ensures
        r is Some <==> valid_utf8(b@),
        r matches Some(s) ==> s@ == decode_utf8(b@),
{
    String::from_utf8(b.clone()).ok()
}

/// Builds an error result that carries `message`, encoded as UTF-8.
pub fn plugin_error(message: &str) -> (r: PluginResult)
    ensures
        r@ == ResultModel::Error(encode_utf8(message@)),
{
    PluginResult::Error(slice_to_vec(message.as_bytes()))
}

/// `arg1` repeated `arg2` times.
pub fn repeat_impl(arg1: &str, arg2: u64) -> (r: String)
    requires
        fits_allocation(arg1.spec_bytes().len(), arg2 as nat),
    ensures
        r@ == repeat_seq(arg1@, arg2 as nat),
{
    let mut out = String::new();
    let mut i: u64 = 0;
    while i < arg2
        invariant
            i <= arg2,
            out@ == repeat_seq(arg1@, i as nat),
        decreases arg2 - i,
    {
        out.append(arg1);
        i = i + 1;
    }
    out
}

/// The plugin's entry point. It checks the argument count and each argument's tag
/// and content before it computes, and reports every failure, a computation that
/// would fault included, as an error result; it never fails in any other way.
pub fn plugin_entrypoint(args: &Vec<PluginValue>) -> (r: PluginResult)
    ensures
        r@ == entry_result(values_model(args@)),
{
    let ghost model = values_model(args@);
    if args.len() != 2 {
        return plugin_error(EntryFault::ArgCount.message());
    }
    let bytes = match &args[0] {
        PluginValue::String(b) => b,
        _ => {
            return plugin_error(EntryFault::Arg0NotString.message());
        },
    };
    let count = match &args[1] {
        PluginValue::UInt(n) => *n,
        _ => {
            return plugin_error(EntryFault::Arg1NotUInt.message());
        },
    };
    assert(model[0] == ValueModel::String(bytes@));
    assert(model[1] == ValueModel::UInt(count));
    let text = match decode_text(bytes) {
        Some(t) => t,
        None => {
            return plugin_error(EntryFault::Arg0NotUtf8.message());
        },
    };
    if !has_no_nul(bytes) {
        return plugin_error(EntryFault::Arg0HasNul.message());
    }
    let fits = match (bytes.len() as u64).checked_mul(count) {
        Some(total) => total <= isize::MAX as u64,
        None => false,
    };
    if !fits {
        return plugin_error(EntryFault::Fault.message());
    }
    let out = repeat_impl(text.as_str(), count);
    let payload = slice_to_vec(out.as_str().as_bytes());
    PluginResult::Value(PluginValue::String(payload))
}

/// UTF-8 encoding distributes over concatenation.
pub proof fn lemma_encode_concat(a: Seq<char>, b: Seq<char>)
    ensures
        encode_utf8(a + b) == encode_utf8(a) + encode_utf8(b),
    decreases a.len(),
{
    if a.len() == 0 {
        assert(a + b =~= b);
        assert(encode_utf8(a) + encode_utf8(b) =~= encode_utf8(b));
    } else {
        lemma_encode_concat(a.drop_first(), b);
        assert((a + b).drop_first() =~= a.drop_first() + b);
        assert((a + b)[0] == a[0]);
        assert(encode_utf8(a + b) =~= encode_utf8(a) + encode_utf8(b));
    }
}

/// Encoding `n` copies of a text gives `n` copies of its encoding.
pub proof fn lemma_encode_repeat(s: Seq<char>, n: nat)
    ensures
        encode_utf8(repeat_seq(s, n)) == repeat_seq(encode_utf8(s), n),
    decreases n,
{
    if n > 0 {
        lemma_encode_repeat(s, (n - 1) as nat);
        lemma_encode_concat(repeat_seq(s, (n - 1) as nat), s);
    }
}

proof fn lemma_repeat_no_nul(b: Seq<u8>, n: nat)
    requires
        no_nul(b),
    ensures
        no_nul(repeat_seq(b, n)),
    decreases n,
{
    if n > 0 {
        lemma_repeat_no_nul(b, (n - 1) as nat);
        let r = repeat_seq(b, n);
        let p = repeat_seq(b, (n - 1) as nat);
        assert forall|i: int| 0 <= i < r.len() implies r[i] != 0u8 by {
            if i < p.len() {
                assert(r[i] == p[i]);
            } else {
                assert(r[i] == b[i - p.len()]);
            }
        }
    }
}

/// Every string the entry point returns is valid UTF-8 and holds no NUL byte, so
/// the caller receives well-formed text that it alone then owns; its bytes are the
/// argument's bytes repeated the requested number of times.
pub proof fn lemma_string_result_is_text(args: Seq<ValueModel>)
    requires
        entry_outcome(args) is Ok,
    ensures
        valid_utf8(entry_outcome(args)->Ok_0),
        no_nul(entry_outcome(args)->Ok_0),
        entry_outcome(args)->Ok_0 == repeat_seq(args[0]->String_0, args[1]->UInt_0 as nat),
{
    let b = args[0]->String_0;
    let n = args[1]->UInt_0 as nat;
    lemma_encode_repeat(decode_utf8(b), n);
    lemma_repeat_no_nul(b, n);
}

/// Calling the entry point with a text and a count returns that text repeated
/// that many times; a count of zero, or the empty text, gives the empty text.
pub proof fn lemma_entry_repeats_text(t: Seq<char>, n: u64)
    requires
        no_nul(encode_utf8(t)),
        fits_allocation(encode_utf8(t).len(), n as nat),
    ensures
        entry_result(seq![ValueModel::String(encode_utf8(t)), ValueModel::UInt(n)])
            == ResultModel::Value(ValueModel::String(encode_utf8(repeat_seq(t, n as nat)))),
        n == 0 ==> repeat_seq(t, n as nat) == Seq::<char>::empty(),
        t.len() == 0 ==> repeat_seq(t, n as nat) == Seq::<char>::empty(),
{
    let args = seq![ValueModel::String(encode_utf8(t)), ValueModel::UInt(n)];
    assert(args[0] == ValueModel::String(encode_utf8(t)));
    assert(args[1] == ValueModel::UInt(n));
    if t.len() == 0 {
        lemma_repeat_of_empty(t, n as nat);
    }
}

proof fn lemma_repeat_of_empty(t: Seq<char>, n: nat)
    requires
        t.len() == 0,
    ensures
        repeat_seq(t, n) == Seq::<char>::empty(),
    decreases n,
{
    if n > 0 {
        lemma_repeat_of_empty(t, (n - 1) as nat);
        assert(repeat_seq(t, (n - 1) as nat) + t =~= Seq::<char>::empty());
    }
}

/// A computation that would fault inside the plugin reaches the caller as an
/// ordinary error result carrying the fault's message.
pub proof fn lemma_fault_reported_as_error(b: Seq<u8>, n: u64)
    requires
        valid_utf8(b),
        no_nul(b),
        !fits_allocation(b.len(), n as nat),
    ensures
        entry_result(seq![ValueModel::String(b), ValueModel::UInt(n)])
            == ResultModel::Error(encode_utf8(EntryFault::Fault.spec_message())),
{
    let args = seq![ValueModel::String(b), ValueModel::UInt(n)];
    assert(args[0] == ValueModel::String(b));
    assert(args[1] == ValueModel::UInt(n));
}

/// The schema query is stable: any two results of `plugin_metadata` agree on the
/// name, the argument kinds and the result kind.
pub proof fn lemma_metadata_stable(first: PluginMetadata, second: PluginMetadata)
    requires
        first@ == repeat_metadata(),
        second@ == repeat_metadata(),
    ensures
        first@ == second@,
        first.name@ == second.name@,
        first.arg_types@ == second.arg_types@,
        first.return_type == second.return_type,
{
}

} // verus!
