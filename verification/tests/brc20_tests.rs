use ord_core::brc20::{deserialize_brc20, Deploy, JSONError, RawOperation};

#[test]
fn test_deserialize() {
    assert_eq!(
        deserialize_brc20(
            r#"{"p":"brc-20","op":"deploy","tick":"abcd","max":"12000","lim":"12","dec":"11"}"#
        )
        .unwrap(),
        RawOperation::Deploy(Deploy {
            tick: "abcd".to_string(),
            max_supply: "12000".to_string(),
            mint_limit: Some("12".to_string()),
            decimals: Some("11".to_string()),
            self_mint: None,
        })
    );
}

#[test]
fn test_self_mint_deserialize() {
    assert_eq!(
        deserialize_brc20(
            r#"{"p":"brc-20","op":"deploy","tick":"abcd","max":"12000","lim":"12","dec":"11"}"#
        )
        .unwrap(),
        RawOperation::Deploy(Deploy {
            tick: "abcd".to_string(),
            max_supply: "12000".to_string(),
            mint_limit: Some("12".to_string()),
            decimals: Some("11".to_string()),
            self_mint: None,
        })
    );
    assert_eq!(
        deserialize_brc20(
            r#"{"p":"brc-20","op":"deploy","tick":"abcd","max":"12000","lim":"12","dec":"11","self_mint":"true"}"#
        )
        .unwrap(),
        RawOperation::Deploy(Deploy {
            tick: "abcd".to_string(),
            max_supply: "12000".to_string(),
            mint_limit: Some("12".to_string()),
            decimals: Some("11".to_string()),
            self_mint: Some(true),
        })
    );
    assert_eq!(
        deserialize_brc20(
            r#"{"p":"brc-20","op":"deploy","tick":"abcd","max":"12000","lim":"12","dec":"11","self_mint":"false"}"#
        )
        .unwrap(),
        RawOperation::Deploy(Deploy {
            tick: "abcd".to_string(),
            max_supply: "12000".to_string(),
            mint_limit: Some("12".to_string()),
            decimals: Some("11".to_string()),
            self_mint: Some(false),
        })
    );
}

#[test]
fn test_self_mint_deserialize_with_error_value() {
    assert_eq!(
        deserialize_brc20(
            r#"{"p":"brc-20","op":"deploy","tick":"abcd","max":"12000","lim":"12","dec":"11","self_mint":"True"}"#
        )
        .unwrap_err(),
        JSONError::ParseOperationJsonError("provided string was not `true` or `false`".to_string())
    );
    assert_eq!(
        deserialize_brc20(
            r#"{"p":"brc-20","op":"deploy","tick":"abcd","max":"12000","lim":"12","dec":"11","self_mint":"t"}"#
        )
        .unwrap_err(),
        JSONError::ParseOperationJsonError("provided string was not `true` or `false`".to_string())
    );
    assert_eq!(
        deserialize_brc20(
            r#"{"p":"brc-20","op":"deploy","tick":"abcd","max":"12000","lim":"12","dec":"11","self_mint":true}"#
        )
        .unwrap_err(),
        JSONError::ParseOperationJsonError("invalid type: boolean `true`, expected a string".to_string())
    );
}

#[test]
fn test_loss_require_key() {
    assert_eq!(
        deserialize_brc20(r#"{"p":"brc-20","op":"deploy","tick":"11","lim":"22","dec":"11"}"#)
            .unwrap_err(),
        JSONError::ParseOperationJsonError("missing field `max`".to_string())
    );
}

#[test]
fn test_loss_option_key() {
    assert_eq!(
        deserialize_brc20(r#"{"p":"brc-20","op":"deploy","tick":"smol","max":"100","dec":"10"}"#)
            .unwrap(),
        RawOperation::Deploy(Deploy {
            tick: "smol".to_string(),
            max_supply: "100".to_string(),
            mint_limit: None,
            decimals: Some("10".to_string()),
            self_mint: None,
        })
    );
    assert_eq!(
        deserialize_brc20(r#"{"p":"brc-20","op":"deploy","tick":"smol","max":"100","lim":"10"}"#)
            .unwrap(),
        RawOperation::Deploy(Deploy {
            tick: "smol".to_string(),
            max_supply: "100".to_string(),
            mint_limit: Some("10".to_string()),
            decimals: None,
            self_mint: None,
        })
    );
    assert_eq!(
        deserialize_brc20(r#"{"p":"brc-20","op":"deploy","tick":"smol","max":"100"}"#).unwrap(),
        RawOperation::Deploy(Deploy {
            tick: "smol".to_string(),
            max_supply: "100".to_string(),
            mint_limit: None,
            decimals: None,
            self_mint: None,
        })
    );
}

#[test]
fn test_duplicate_key() {
    let json_str = r#"{"p":"brc-20","op":"deploy","tick":"smol","max":"100","lim":"10","dec":"17","max":"200","lim":"20","max":"300"}"#;
    assert_eq!(
        deserialize_brc20(json_str).unwrap(),
        RawOperation::Deploy(Deploy {
            tick: "smol".to_string(),
            max_supply: "300".to_string(),
            mint_limit: Some("20".to_string()),
            decimals: Some("17".to_string()),
            self_mint: None,
        })
    );
}

#[test]
fn test_serialize() {
    let obj = Deploy {
        tick: "abcd".to_string(),
        max_supply: "12000".to_string(),
        mint_limit: Some("12".to_string()),
        decimals: Some("11".to_string()),
        self_mint: None,
    };
    assert_eq!(
        obj.to_json_string(),
        format!(
            r##"{{"tick":"{}","max":"{}","lim":"{}","dec":"{}"}}"##,
            obj.tick,
            obj.max_supply,
            obj.mint_limit.clone().unwrap(),
            obj.decimals.clone().unwrap()
        )
    )
}

#[test]
fn test_self_mint_serialize() {
    let obj = Deploy {
        tick: "abcd".to_string(),
        max_supply: "12000".to_string(),
        mint_limit: Some("12".to_string()),
        decimals: Some("11".to_string()),
        self_mint: None,
    };
    assert_eq!(
        obj.to_json_string(),
        format!(
            r##"{{"tick":"{}","max":"{}","lim":"{}","dec":"{}"}}"##,
            obj.tick,
            obj.max_supply,
            obj.mint_limit.as_ref().unwrap(),
            obj.decimals.as_ref().unwrap(),
        )
    );
    let obj = Deploy { self_mint: Some(true), ..obj };
    assert_eq!(
        obj.to_json_string(),
        format!(
            r##"{{"tick":"{}","max":"{}","lim":"{}","dec":"{}","self_mint":"{}"}}"##,
            obj.tick,
            obj.max_supply,
            obj.mint_limit.as_ref().unwrap(),
            obj.decimals.as_ref().unwrap(),
            obj.self_mint.as_ref().unwrap()
        )
    );
    let obj = Deploy { self_mint: Some(false), ..obj };
    assert_eq!(
        obj.to_json_string(),
        format!(
            r##"{{"tick":"{}","max":"{}","lim":"{}","dec":"{}","self_mint":"{}"}}"##,
            obj.tick,
            obj.max_supply,
            obj.mint_limit.as_ref().unwrap(),
            obj.decimals.as_ref().unwrap(),
            obj.self_mint.as_ref().unwrap()
        )
    )
}
