use ord_core::brc20::{decode, deserialize_brc20, DecodeError, Deploy, JSONError, RawOperation};
use ord_core::policies::{gated_self_mint, Chain, HardForks};

#[test]
fn activation_heights() {
    assert_eq!(HardForks::self_issuance_activation_height(Chain::Mainnet), 837090);
    assert_eq!(HardForks::self_issuance_activation_height(Chain::Testnet), 2413343);
    assert_eq!(HardForks::self_issuance_activation_height(Chain::Regtest), 0);
    assert_eq!(HardForks::self_issuance_activation_height(Chain::Signet), 0);
}

#[test]
fn gating_honors_value_only_from_activation() {
    assert_eq!(gated_self_mint(Chain::Mainnet, 837089, Some(true)), None);
    assert_eq!(gated_self_mint(Chain::Mainnet, 837090, Some(true)), Some(true));
    assert_eq!(gated_self_mint(Chain::Mainnet, 900000, Some(false)), Some(false));
    assert_eq!(gated_self_mint(Chain::Regtest, 0, Some(true)), Some(true));
    assert_eq!(gated_self_mint(Chain::Signet, 0, Some(false)), Some(false));
    assert_eq!(gated_self_mint(Chain::Testnet, 0, Some(true)), None);
}

#[test]
fn decode_gates_self_mint_by_height() {
    let payload = r#"{"p":"brc-20","op":"deploy","tick":"abcd","max":"21000000","self_mint":"true"}"#;
    // below activation the field is ignored even though it was present
    assert_eq!(
        decode(Chain::Mainnet, 837089, payload).unwrap(),
        RawOperation::Deploy(Deploy {
            tick: "abcd".to_string(),
            max_supply: "21000000".to_string(),
            mint_limit: None,
            decimals: None,
            self_mint: None,
        })
    );
    // at activation it is honored
    assert_eq!(
        decode(Chain::Mainnet, 837090, payload).unwrap(),
        RawOperation::Deploy(Deploy {
            tick: "abcd".to_string(),
            max_supply: "21000000".to_string(),
            mint_limit: None,
            decimals: None,
            self_mint: Some(true),
        })
    );
    // test chains honor it from genesis
    assert_eq!(
        decode(Chain::Regtest, 0, payload).unwrap(),
        RawOperation::Deploy(Deploy {
            tick: "abcd".to_string(),
            max_supply: "21000000".to_string(),
            mint_limit: None,
            decimals: None,
            self_mint: Some(true),
        })
    );
}

#[test]
fn malformed_payloads_are_invalid_json() {
    assert_eq!(deserialize_brc20("").unwrap_err(), JSONError::InvalidJson);
    assert_eq!(deserialize_brc20("not json").unwrap_err(), JSONError::InvalidJson);
    assert_eq!(deserialize_brc20(r#"{"tick":"a""#).unwrap_err(), JSONError::InvalidJson);
    assert_eq!(deserialize_brc20(r#"[1,2,3]"#).unwrap_err(), JSONError::InvalidJson);
    assert_eq!(deserialize_brc20(r#"{"a":01}"#).unwrap_err(), JSONError::InvalidJson);
    assert_eq!(deserialize_brc20(r#"{"a":1} trailing"#).unwrap_err(), JSONError::InvalidJson);
}

#[test]
fn wrong_protocol_or_operation_is_not_brc20() {
    assert_eq!(
        deserialize_brc20(r#"{"op":"deploy","tick":"a","max":"1"}"#).unwrap_err(),
        JSONError::NotBrc20Json
    );
    assert_eq!(
        deserialize_brc20(r#"{"p":"brc-21","op":"deploy","tick":"a","max":"1"}"#).unwrap_err(),
        JSONError::NotBrc20Json
    );
    assert_eq!(
        deserialize_brc20(r#"{"p":"brc-20","op":"mint","tick":"a","max":"1"}"#).unwrap_err(),
        JSONError::NotBrc20Json
    );
    assert_eq!(
        deserialize_brc20(r#"{"p":"brc-20","tick":"a","max":"1"}"#).unwrap_err(),
        JSONError::NotBrc20Json
    );
}

#[test]
fn missing_tick_names_the_field() {
    assert_eq!(
        deserialize_brc20(r#"{"p":"brc-20","op":"deploy","max":"1"}"#).unwrap_err(),
        JSONError::ParseOperationJsonError("missing field `tick`".to_string())
    );
}

#[test]
fn wrong_field_types_are_mismatches() {
    assert_eq!(
        deserialize_brc20(r#"{"p":"brc-20","op":"deploy","tick":null,"max":"1"}"#).unwrap_err(),
        JSONError::ParseOperationJsonError("invalid type: null, expected a string".to_string())
    );
    assert_eq!(
        deserialize_brc20(r#"{"p":"brc-20","op":"deploy","tick":"a","max":["1"]}"#).unwrap_err(),
        JSONError::ParseOperationJsonError("invalid type: sequence, expected a string".to_string())
    );
    assert_eq!(
        deserialize_brc20(r#"{"p":"brc-20","op":"deploy","tick":"a","max":{"n":"1"}}"#)
            .unwrap_err(),
        JSONError::ParseOperationJsonError("invalid type: map, expected a string".to_string())
    );
}

#[test]
fn unknown_fields_are_ignored() {
    assert_eq!(
        deserialize_brc20(
            r#"{"p":"brc-20","op":"deploy","tick":"a","max":"1","extra":[{"deep":null},1.5e3,false]}"#
        )
        .unwrap(),
        RawOperation::Deploy(Deploy {
            tick: "a".to_string(),
            max_supply: "1".to_string(),
            mint_limit: None,
            decimals: None,
            self_mint: None,
        })
    );
}

#[test]
fn string_escapes_are_decoded() {
    // \u0041 is 'A'; a surrogate pair yields one supplementary scalar
    assert_eq!(
        deserialize_brc20(
            "{\"p\":\"brc-20\",\"op\":\"deploy\",\"tick\":\"\\u0041b\\n\",\"max\":\"1\"}"
        )
        .unwrap(),
        RawOperation::Deploy(Deploy {
            tick: "Ab\n".to_string(),
            max_supply: "1".to_string(),
            mint_limit: None,
            decimals: None,
            self_mint: None,
        })
    );
    assert_eq!(
        deserialize_brc20(
            "{\"p\":\"brc-20\",\"op\":\"deploy\",\"tick\":\"\\uD83D\\uDE00\",\"max\":\"1\"}"
        )
        .unwrap(),
        RawOperation::Deploy(Deploy {
            tick: "\u{1F600}".to_string(),
            max_supply: "1".to_string(),
            mint_limit: None,
            decimals: None,
            self_mint: None,
        })
    );
    // a lone surrogate is not a JSON string
    assert_eq!(
        deserialize_brc20("{\"p\":\"brc-20\",\"op\":\"deploy\",\"tick\":\"\\uD83D\",\"max\":\"1\"}")
            .unwrap_err(),
        JSONError::InvalidJson
    );
}

#[test]
fn escaped_keys_resolve_like_plain_ones() {
    // "ma\u0078" is "max": the decoded key takes part in last-wins
    assert_eq!(
        deserialize_brc20(r#"{"p":"brc-20","op":"deploy","tick":"a","max":"1","ma\u0078":"2"}"#)
            .unwrap(),
        RawOperation::Deploy(Deploy {
            tick: "a".to_string(),
            max_supply: "2".to_string(),
            mint_limit: None,
            decimals: None,
            self_mint: None,
        })
    );
}

#[test]
fn encode_escapes_string_content() {
    let obj = Deploy {
        tick: "a\"b\\c\n".to_string(),
        max_supply: "1".to_string(),
        mint_limit: None,
        decimals: None,
        self_mint: None,
    };
    assert_eq!(obj.to_json_string(), "{\"tick\":\"a\\\"b\\\\c\\n\",\"max\":\"1\"}");
}

#[test]
fn structured_errors_carry_field_and_value() {
    let e = ord_core::brc20::decode_operation(
        r#"{"p":"brc-20","op":"deploy","tick":"a","max":"1","self_mint":"yes"}"#,
    )
    .unwrap_err();
    match e {
        DecodeError::InvalidValue { value, .. } => assert_eq!(value, "yes"),
        _ => panic!("expected an invalid-value error"),
    }
    assert_eq!(
        ord_core::brc20::decode_operation("x").unwrap_err(),
        DecodeError::MalformedPayload
    );
}
