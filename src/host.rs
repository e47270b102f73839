use vstd::prelude::*;

use crate::value::{OwnedPluginValue, PluginMetadata, PluginResult, PluginType, ResultModel};

verus! {

/// Why a call that reached the plugin produced no value for the host.
#[derive(Clone, Debug, PartialEq, Eq)]
pub enum CallError {
    /// The plugin reported an error; the host now owns the message's bytes.
    Plugin(Vec<u8>),
    /// The plugin returned a value of another kind than its schema declares.
    WrongReturnType { declared: PluginType, actual: PluginType },
}

/// Takes ownership of what a call returned. An error result becomes
/// `CallError::Plugin` with the same message; a value of the declared return kind
/// becomes the host's own value; a value of another kind breaks the schema and is
/// refused.
pub fn unmarshal_result(result: PluginResult, metadata: &PluginMetadata) -> (r: Result<
    OwnedPluginValue,
    CallError,
>)
    ensures
        match result@ {
            ResultModel::Error(m) => r matches Err(CallError::Plugin(b)) && b@ == m,
            ResultModel::Value(v) => if v.tag() == metadata.return_type {
                r matches Ok(o) && o@ == v
            } else {
                r matches Err(CallError::WrongReturnType { declared, actual }) && declared
                    == metadata.return_type && actual == v.tag()
            },
        },
{
    match result {
        PluginResult::Error(m) => Err(CallError::Plugin(m)),
        PluginResult::Value(v) => {
            let actual = v.tag();
            if actual == metadata.return_type {
                Ok(v.to_owned())
            } else {
                Err(CallError::WrongReturnType { declared: metadata.return_type, actual })
            }
        },
    }
}

} // verus!
