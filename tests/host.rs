use plugin_abi::host::{unmarshal_result, CallError};
use plugin_abi::marshal::{marshal_args, HostArg};
use plugin_abi::plugin::{plugin_entrypoint, plugin_metadata};
use plugin_abi::value::{OwnedPluginValue, PluginMetadata, PluginResult, PluginType, PluginValue};

fn schema(ret: PluginType) -> PluginMetadata {
    PluginMetadata { name: "t".to_string(), arg_types: vec![], return_type: ret }
}

#[test]
fn unmarshal_value_of_declared_kind() {
    let r = unmarshal_result(PluginResult::Value(PluginValue::Int(-3)), &schema(PluginType::Int));
    assert_eq!(r, Ok(OwnedPluginValue::Int(-3)));
}

#[test]
fn unmarshal_plugin_error() {
    let r = unmarshal_result(PluginResult::Error(b"boom".to_vec()), &schema(PluginType::Int));
    assert_eq!(r, Err(CallError::Plugin(b"boom".to_vec())));
}

#[test]
fn unmarshal_wrong_return_kind() {
    let r = unmarshal_result(PluginResult::Value(PluginValue::Bool(true)), &schema(PluginType::String));
    assert_eq!(r, Err(CallError::WrongReturnType { declared: PluginType::String, actual: PluginType::Bool }));
}

#[test]
fn to_owned_keeps_payload() {
    assert_eq!(PluginValue::String(b"hi".to_vec()).to_owned(), OwnedPluginValue::String(b"hi".to_vec()));
    assert_eq!(PluginValue::Double(7).to_owned(), OwnedPluginValue::Double(7));
    assert_eq!(PluginValue::UInt(9).tag(), PluginType::UInt);
}

#[test]
fn whole_call_round_trip() {
    let meta = plugin_metadata();
    let args = vec![
        HostArg { text: "ab".to_string(), double_bits: None },
        HostArg { text: "3".to_string(), double_bits: Some(3f64.to_bits()) },
    ];
    let values = marshal_args(&args, &meta.arg_types).unwrap();
    let result = plugin_entrypoint(&values);
    assert_eq!(unmarshal_result(result, &meta), Ok(OwnedPluginValue::String(b"ababab".to_vec())));
}

#[test]
fn whole_call_bad_count_never_reaches_plugin() {
    let meta = plugin_metadata();
    let args = vec![HostArg { text: "x".to_string(), double_bits: None }];
    assert!(marshal_args(&args, &meta.arg_types).is_err());
}
