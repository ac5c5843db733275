use crate::json::{
    entries_view, last_entry, parse_payload, spec_parse_payload, JsonVal, JsonValue,
};
use crate::policies::{spec_gated_self_mint, Chain};
use vstd::prelude::*;
use vstd::string::StrSliceExecFns;

verus! {

/// A deploy operation of the token protocol. All numeric-looking fields are
/// carried as strings: the wire format never uses JSON numbers, and parsing
/// to exact decimals is the downstream state machine's job.
#[derive(Debug, Clone, PartialEq, Eq)]
pub struct Deploy {
    pub tick: String,
    pub max_supply: String,
    pub mint_limit: Option<String>,
    pub decimals: Option<String>,
    pub self_mint: Option<bool>,
}

/// Spec-level counterpart of `Deploy`.
pub struct DeployView {
    pub tick: Seq<char>,
    pub max_supply: Seq<char>,
    pub mint_limit: Option<Seq<char>>,
    pub decimals: Option<Seq<char>>,
    pub self_mint: Option<bool>,
}

impl View for Deploy {
    type V = DeployView;

    open spec fn view(&self) -> DeployView {
        DeployView {
            tick: self.tick@,
            max_supply: self.max_supply@,
            mint_limit: match self.mint_limit {
                Some(ref s) => Some(s@),
                None => None,
            },
            decimals: match self.decimals {
                Some(ref s) => Some(s@),
                None => None,
            },
            self_mint: self.self_mint,
        }
    }
}

/// One decoded token-protocol operation.
#[derive(Debug, Clone, PartialEq, Eq)]
pub enum RawOperation {
    Deploy(Deploy),
}

pub enum RawOperationView {
    Deploy(DeployView),
}

impl View for RawOperation {
    type V = RawOperationView;

    open spec fn view(&self) -> RawOperationView {
        match self {
            RawOperation::Deploy(d) => RawOperationView::Deploy(d@),
        }
    }
}

/// The wire fields a decode error can name.
#[derive(Debug, Clone, Copy, PartialEq, Eq, Structural)]
pub enum Field {
    Protocol,
    Operation,
    Tick,
    Max,
    Lim,
    Dec,
    SelfMint,
}

/// The JSON kind of a value, as named in type-mismatch errors.
#[derive(Debug, Clone, Copy, PartialEq, Eq, Structural)]
pub enum JsonKind {
    Str,
    Bool(bool),
    Number,
    Null,
    Array,
    Object,
}

pub open spec fn kind_of(v: JsonVal) -> JsonKind {
    match v {
        JsonVal::Str(_) => JsonKind::Str,
        JsonVal::Bool(b) => JsonKind::Bool(b),
        JsonVal::Number => JsonKind::Number,
        JsonVal::Null => JsonKind::Null,
        JsonVal::Array => JsonKind::Array,
        JsonVal::Object => JsonKind::Object,
    }
}

fn kind_of_exec(v: &JsonValue) -> (r: JsonKind)
    ensures
        r == kind_of(v@),
{
    match v {
        JsonValue::Str(_) => JsonKind::Str,
        JsonValue::Bool(b) => JsonKind::Bool(*b),
        JsonValue::Number => JsonKind::Number,
        JsonValue::Null => JsonKind::Null,
        JsonValue::Array => JsonKind::Array,
        JsonValue::Object => JsonKind::Object,
    }
}

/// Why a payload failed to decode. Every error is recoverable: the pipeline
/// skips the one operation and goes on with the block.
#[derive(Debug, Clone, PartialEq, Eq)]
pub enum DecodeError {
    /// Not one well-formed JSON object.
    MalformedPayload,
    /// A required field is absent.
    MissingField(Field),
    /// A field carries the wrong JSON type.
    TypeMismatch { field: Field, expected: JsonKind, found: JsonKind },
    /// A field's text fails domain parsing; carries the offending value.
    InvalidValue { field: Field, value: String },
}

pub enum ErrorView {
    MalformedPayload,
    MissingField(Field),
    TypeMismatch { field: Field, expected: JsonKind, found: JsonKind },
    InvalidValue { field: Field, value: Seq<char> },
}

impl View for DecodeError {
    type V = ErrorView;

    open spec fn view(&self) -> ErrorView {
        match self {
            DecodeError::MalformedPayload => ErrorView::MalformedPayload,
            DecodeError::MissingField(f) => ErrorView::MissingField(*f),
            DecodeError::TypeMismatch { field, expected, found } => ErrorView::TypeMismatch {
                field: *field,
                expected: *expected,
                found: *found,
            },
            DecodeError::InvalidValue { field, value } => ErrorView::InvalidValue {
                field: *field,
                value: value@,
            },
        }
    }
}

/// What decoding the members of a payload object yields: required fields
/// must be present strings; optional fields may be absent; `self_mint` must
/// be the exact string "true" or "false", never a JSON boolean; unknown
/// fields are ignored; for every field the last occurrence wins.
pub open spec fn spec_decode_entries(es: Seq<(Seq<char>, JsonVal)>) -> Result<
    DeployView,
    ErrorView,
> {
    match last_entry(es, "p"@) {
        None => Err(ErrorView::MissingField(Field::Protocol)),
        Some(pv) => match pv {
            JsonVal::Str(p) => if p != "brc-20"@ {
                Err(ErrorView::InvalidValue { field: Field::Protocol, value: p })
            } else {
                match last_entry(es, "op"@) {
                    None => Err(ErrorView::MissingField(Field::Operation)),
                    Some(ov) => match ov {
                        JsonVal::Str(o) => if o != "deploy"@ {
                            Err(ErrorView::InvalidValue { field: Field::Operation, value: o })
                        } else {
                            spec_decode_deploy_fields(es)
                        },
                        _ => Err(ErrorView::TypeMismatch {
                            field: Field::Operation,
                            expected: JsonKind::Str,
                            found: kind_of(ov),
                        }),
                    },
                }
            },
            _ => Err(ErrorView::TypeMismatch {
                field: Field::Protocol,
                expected: JsonKind::Str,
                found: kind_of(pv),
            }),
        },
    }
}

/// The deploy-specific fields, once the protocol and operation tags match.
pub open spec fn spec_decode_deploy_fields(es: Seq<(Seq<char>, JsonVal)>) -> Result<
    DeployView,
    ErrorView,
> {
    match last_entry(es, "tick"@) {
        None => Err(ErrorView::MissingField(Field::Tick)),
        Some(tv) => match tv {
            JsonVal::Str(tick) => match last_entry(es, "max"@) {
                None => Err(ErrorView::MissingField(Field::Max)),
                Some(mv) => match mv {
                    JsonVal::Str(max_supply) => match spec_opt_string(es, "lim"@, Field::Lim) {
                        Err(e) => Err(e),
                        Ok(mint_limit) => match spec_opt_string(es, "dec"@, Field::Dec) {
                            Err(e) => Err(e),
                            Ok(decimals) => match spec_self_mint(es) {
                                Err(e) => Err(e),
                                Ok(self_mint) => Ok(DeployView {
                                    tick,
                                    max_supply,
                                    mint_limit,
                                    decimals,
                                    self_mint,
                                }),
                            },
                        },
                    },
                    _ => Err(ErrorView::TypeMismatch {
                        field: Field::Max,
                        expected: JsonKind::Str,
                        found: kind_of(mv),
                    }),
                },
            },
            _ => Err(ErrorView::TypeMismatch {
                field: Field::Tick,
                expected: JsonKind::Str,
                found: kind_of(tv),
            }),
        },
    }
}

/// An optional string field: absent means `None`; present means it must be
/// a string.
pub open spec fn spec_opt_string(es: Seq<(Seq<char>, JsonVal)>, key: Seq<char>, f: Field) -> Result<
    Option<Seq<char>>,
    ErrorView,
> {
    match last_entry(es, key) {
        None => Ok(None),
        Some(v) => match v {
            JsonVal::Str(s) => Ok(Some(s)),
            _ => Err(ErrorView::TypeMismatch { field: f, expected: JsonKind::Str, found: kind_of(v) }),
        },
    }
}

/// The `self_mint` field is carried as the string "true" or "false". A JSON
/// boolean is a type mismatch; any other string is an invalid value.
pub open spec fn spec_self_mint(es: Seq<(Seq<char>, JsonVal)>) -> Result<Option<bool>, ErrorView> {
    match last_entry(es, "self_mint"@) {
        None => Ok(None),
        Some(v) => match v {
            JsonVal::Str(s) => if s == "true"@ {
                Ok(Some(true))
            } else if s == "false"@ {
                Ok(Some(false))
            } else {
                Err(ErrorView::InvalidValue { field: Field::SelfMint, value: s })
            },
            _ => Err(ErrorView::TypeMismatch {
                field: Field::SelfMint,
                expected: JsonKind::Str,
                found: kind_of(v),
            }),
        },
    }
}

/// What `decode_operation` returns for any payload text: the parse of the
/// text as one JSON object, then the field rules above.
pub open spec fn spec_decode(s: Seq<char>) -> Result<DeployView, ErrorView> {
    match spec_parse_payload(s) {
        None => Err(ErrorView::MalformedPayload),
        Some(es) => spec_decode_entries(es),
    }
}

/// The characters of a string slice.
pub fn str_chars(s: &str) -> (r: Vec<char>)
    ensures
        r@ == s@,
{
    let n = s.unicode_len();
    let mut v: Vec<char> = Vec::new();
    let mut i: usize = 0;
    while i < n
        invariant
            i <= n,
            n == s@.len(),
            v@ == s@.subrange(0, i as int),
        decreases n - i,
    {
        let c = s.get_char(i);
        v.push(c);
        proof {
            assert(v@ =~= s@.subrange(0, i + 1));
        }
        i = i + 1;
    }
    proof {
        assert(v@ =~= s@);
    }
    v
}

/// Relies on Iterator::collect for String: the collected string holds
/// exactly the characters of the vector, in order.
#[verifier::external_body]
fn chars_to_string(v: &Vec<char>) -> (r: String)
    ensures
        r@ == v@,
{
    v.iter().collect()
}

fn eq_chars(a: &Vec<char>, b: &Vec<char>) -> (r: bool)
    ensures
        r <==> a@ == b@,
{
    if a.len() != b.len() {
        return false;
    }
    let mut i: usize = 0;
    while i < a.len()
        invariant
            i <= a.len(),
            a.len() == b.len(),
            forall|k: int| 0 <= k < i ==> a@[k] == b@[k],
        decreases a.len() - i,
    {
        if a[i] != b[i] {
            return false;
        }
        i = i + 1;
    }
    proof {
        assert(a@ =~= b@);
    }
    true
}

/// Value of the last member with the given key, scanning from the end.
fn find_last<'a>(es: &'a Vec<(Vec<char>, JsonValue)>, key: &Vec<char>) -> (r: Option<
    &'a JsonValue,
>)
    ensures
        match r {
            Some(v) => last_entry(entries_view(es@), key@) == Some(v@),
            None => last_entry(entries_view(es@), key@) is None,
        },
{
    proof {
        assert(entries_view(es@).take(es@.len() as int) =~= entries_view(es@));
    }
    let mut i = es.len();
    while i > 0
        invariant
            i <= es.len(),
            last_entry(entries_view(es@), key@) == last_entry(
                entries_view(es@).take(i as int),
                key@,
            ),
        decreases i,
    {
        i = i - 1;
        let hit = eq_chars(&es[i].0, key);
        proof {
            assert(entries_view(es@).take(i + 1).last() == (es@[i as int].0@, es@[i as int].1@));
            assert(entries_view(es@).take(i + 1).drop_last() =~= entries_view(es@).take(i as int));
        }
        if hit {
            return Some(&es[i].1);
        }
    }
    None
}

/// Decode a raw payload into a typed operation, reporting exactly what was
/// textually present; no hard-fork gating is applied here.
pub fn decode_operation(payload: &str) -> (r: Result<RawOperation, DecodeError>)
    ensures
        match (r, spec_decode(payload@)) {
            (Ok(op), Ok(d)) => op@ == RawOperationView::Deploy(d),
            (Err(e), Err(ev)) => e@ == ev,
            _ => false,
        },
{
    let cs = str_chars(payload);
    let entries = match parse_payload(&cs) {
        None => {
            return Err(DecodeError::MalformedPayload);
        },
        Some(es) => es,
    };
    let p_key = str_chars("p");
    let pv = match find_last(&entries, &p_key) {
        None => {
            return Err(DecodeError::MissingField(Field::Protocol));
        },
        Some(v) => v,
    };
    let brc20 = str_chars("brc-20");
    match pv {
        JsonValue::Str(p) => {
            if !eq_chars(p, &brc20) {
                return Err(DecodeError::InvalidValue {
                    field: Field::Protocol,
                    value: chars_to_string(p),
                });
            }
        },
        _ => {
            return Err(DecodeError::TypeMismatch {
                field: Field::Protocol,
                expected: JsonKind::Str,
                found: kind_of_exec(pv),
            });
        },
    }
    let op_key = str_chars("op");
    let ov = match find_last(&entries, &op_key) {
        None => {
            return Err(DecodeError::MissingField(Field::Operation));
        },
        Some(v) => v,
    };
    let deploy_word = str_chars("deploy");
    match ov {
        JsonValue::Str(o) => {
            if !eq_chars(o, &deploy_word) {
                return Err(DecodeError::InvalidValue {
                    field: Field::Operation,
                    value: chars_to_string(o),
                });
            }
        },
        _ => {
            return Err(DecodeError::TypeMismatch {
                field: Field::Operation,
                expected: JsonKind::Str,
                found: kind_of_exec(ov),
            });
        },
    }
    let tick_key = str_chars("tick");
    let tick = match find_last(&entries, &tick_key) {
        None => {
            return Err(DecodeError::MissingField(Field::Tick));
        },
        Some(JsonValue::Str(t)) => chars_to_string(t),
        Some(v) => {
            return Err(DecodeError::TypeMismatch {
                field: Field::Tick,
                expected: JsonKind::Str,
                found: kind_of_exec(v),
            });
        },
    };
    let max_key = str_chars("max");
    let max_supply = match find_last(&entries, &max_key) {
        None => {
            return Err(DecodeError::MissingField(Field::Max));
        },
        Some(JsonValue::Str(t)) => chars_to_string(t),
        Some(v) => {
            return Err(DecodeError::TypeMismatch {
                field: Field::Max,
                expected: JsonKind::Str,
                found: kind_of_exec(v),
            });
        },
    };
    let lim_key = str_chars("lim");
    let mint_limit = match find_last(&entries, &lim_key) {
        None => None,
        Some(JsonValue::Str(t)) => Some(chars_to_string(t)),
        Some(v) => {
            return Err(DecodeError::TypeMismatch {
                field: Field::Lim,
                expected: JsonKind::Str,
                found: kind_of_exec(v),
            });
        },
    };
    let dec_key = str_chars("dec");
    let decimals = match find_last(&entries, &dec_key) {
        None => None,
        Some(JsonValue::Str(t)) => Some(chars_to_string(t)),
        Some(v) => {
            return Err(DecodeError::TypeMismatch {
                field: Field::Dec,
                expected: JsonKind::Str,
                found: kind_of_exec(v),
            });
        },
    };
    let self_mint_key = str_chars("self_mint");
    let true_word = str_chars("true");
    let false_word = str_chars("false");
    let self_mint = match find_last(&entries, &self_mint_key) {
        None => None,
        Some(JsonValue::Str(t)) => {
            if eq_chars(t, &true_word) {
                Some(true)
            } else if eq_chars(t, &false_word) {
                Some(false)
            } else {
                return Err(DecodeError::InvalidValue {
                    field: Field::SelfMint,
                    value: chars_to_string(t),
                });
            }
        },
        Some(v) => {
            return Err(DecodeError::TypeMismatch {
                field: Field::SelfMint,
                expected: JsonKind::Str,
                found: kind_of_exec(v),
            });
        },
    };
    Ok(RawOperation::Deploy(Deploy { tick, max_supply, mint_limit, decimals, self_mint }))
}

/// What `decode` returns: the raw decode, with the hard-fork gate applied to
/// `self_mint` so that consensus state never sees the field before its
/// activation height.
pub open spec fn spec_decode_gated(chain: Chain, height: u32, s: Seq<char>) -> Result<
    DeployView,
    ErrorView,
> {
    match spec_decode(s) {
        Err(e) => Err(e),
        Ok(d) => Ok(DeployView {
            self_mint: spec_gated_self_mint(chain, height, d.self_mint),
            ..d
        }),
    }
}

/// Decode a raw payload for the given chain at the given block height,
/// ignoring a decoded `self_mint` below its activation height.
pub fn decode(chain: Chain, height: u32, payload: &str) -> (r: Result<RawOperation, DecodeError>)
    ensures
        match (r, spec_decode_gated(chain, height, payload@)) {
            (Ok(op), Ok(d)) => op@ == RawOperationView::Deploy(d),
            (Err(e), Err(ev)) => e@ == ev,
            _ => false,
        },
{
    match decode_operation(payload) {
        Err(e) => Err(e),
        Ok(RawOperation::Deploy(d)) => {
            let gated = crate::policies::gated_self_mint(chain, height, d.self_mint);
            Ok(RawOperation::Deploy(Deploy { self_mint: gated, ..d }))
        },
    }
}

/// The error type the indexing pipeline sees, with the exact message texts
/// it logs and matches on.
#[derive(Debug, Clone, PartialEq, Eq)]
pub enum JSONError {
    InvalidJson,
    NotBrc20Json,
    ParseOperationJsonError(String),
}

pub enum JSONErrorView {
    InvalidJson,
    NotBrc20Json,
    ParseOperationJsonError(Seq<char>),
}

impl View for JSONError {
    type V = JSONErrorView;

    open spec fn view(&self) -> JSONErrorView {
        match self {
            JSONError::InvalidJson => JSONErrorView::InvalidJson,
            JSONError::NotBrc20Json => JSONErrorView::NotBrc20Json,
            JSONError::ParseOperationJsonError(s) => JSONErrorView::ParseOperationJsonError(s@),
        }
    }
}

pub open spec fn spec_missing_message(f: Field) -> Seq<char> {
    match f {
        Field::Protocol => "missing field `p`"@,
        Field::Operation => "missing field `op`"@,
        Field::Tick => "missing field `tick`"@,
        Field::Max => "missing field `max`"@,
        Field::Lim => "missing field `lim`"@,
        Field::Dec => "missing field `dec`"@,
        Field::SelfMint => "missing field `self_mint`"@,
    }
}

pub open spec fn spec_mismatch_message(found: JsonKind) -> Seq<char> {
    match found {
        JsonKind::Str => "invalid type: string, expected a string"@,
        JsonKind::Bool(true) => "invalid type: boolean `true`, expected a string"@,
        JsonKind::Bool(false) => "invalid type: boolean `false`, expected a string"@,
        JsonKind::Number => "invalid type: number, expected a string"@,
        JsonKind::Null => "invalid type: null, expected a string"@,
        JsonKind::Array => "invalid type: sequence, expected a string"@,
        JsonKind::Object => "invalid type: map, expected a string"@,
    }
}

/// How a structured decode error reaches the pipeline: anything wrong with
/// the protocol or operation tag means the payload is no operation of this
/// protocol; field-level errors carry a message.
pub open spec fn spec_json_error(e: ErrorView) -> JSONErrorView {
    match e {
        ErrorView::MalformedPayload => JSONErrorView::InvalidJson,
        ErrorView::MissingField(f) => if f == Field::Protocol || f == Field::Operation {
            JSONErrorView::NotBrc20Json
        } else {
            JSONErrorView::ParseOperationJsonError(spec_missing_message(f))
        },
        ErrorView::TypeMismatch { field, expected, found } => if field == Field::Protocol || field
            == Field::Operation {
            JSONErrorView::NotBrc20Json
        } else {
            JSONErrorView::ParseOperationJsonError(spec_mismatch_message(found))
        },
        ErrorView::InvalidValue { field, value } => if field == Field::Protocol || field
            == Field::Operation {
            JSONErrorView::NotBrc20Json
        } else {
            JSONErrorView::ParseOperationJsonError(
                "provided string was not `true` or `false`"@,
            )
        },
    }
}

fn missing_message(f: Field) -> (r: String)
    ensures
        r@ == spec_missing_message(f),
{
    match f {
        Field::Protocol => "missing field `p`".to_owned(),
        Field::Operation => "missing field `op`".to_owned(),
        Field::Tick => "missing field `tick`".to_owned(),
        Field::Max => "missing field `max`".to_owned(),
        Field::Lim => "missing field `lim`".to_owned(),
        Field::Dec => "missing field `dec`".to_owned(),
        Field::SelfMint => "missing field `self_mint`".to_owned(),
    }
}

fn mismatch_message(found: JsonKind) -> (r: String)
    ensures
        r@ == spec_mismatch_message(found),
{
    match found {
        JsonKind::Str => "invalid type: string, expected a string".to_owned(),
        JsonKind::Bool(true) => "invalid type: boolean `true`, expected a string".to_owned(),
        JsonKind::Bool(false) => "invalid type: boolean `false`, expected a string".to_owned(),
        JsonKind::Number => "invalid type: number, expected a string".to_owned(),
        JsonKind::Null => "invalid type: null, expected a string".to_owned(),
        JsonKind::Array => "invalid type: sequence, expected a string".to_owned(),
        JsonKind::Object => "invalid type: map, expected a string".to_owned(),
    }
}

fn json_error_of(e: DecodeError) -> (r: JSONError)
    ensures
        r@ == spec_json_error(e@),
{
    match e {
        DecodeError::MalformedPayload => JSONError::InvalidJson,
        DecodeError::MissingField(f) => {
            if matches!(f, Field::Protocol) || matches!(f, Field::Operation) {
                JSONError::NotBrc20Json
            } else {
                JSONError::ParseOperationJsonError(missing_message(f))
            }
        },
        DecodeError::TypeMismatch { field, expected: _, found } => {
            if matches!(field, Field::Protocol) || matches!(field, Field::Operation) {
                JSONError::NotBrc20Json
            } else {
                JSONError::ParseOperationJsonError(mismatch_message(found))
            }
        },
        DecodeError::InvalidValue { field, value: _ } => {
            if matches!(field, Field::Protocol) || matches!(field, Field::Operation) {
                JSONError::NotBrc20Json
            } else {
                JSONError::ParseOperationJsonError(
                    "provided string was not `true` or `false`".to_owned(),
                )
            }
        },
    }
}

/// Decode a raw payload, reporting failures as the pipeline's error type.
/// No hard-fork gating is applied: the raw decode reports what was present.
pub fn deserialize_brc20(payload: &str) -> (r: Result<RawOperation, JSONError>)
    ensures
        match (r, spec_decode(payload@)) {
            (Ok(op), Ok(d)) => op@ == RawOperationView::Deploy(d),
            (Err(e), Err(ev)) => e@ == spec_json_error(ev),
            _ => false,
        },
{
    match decode_operation(payload) {
        Ok(op) => Ok(op),
        Err(e) => Err(json_error_of(e)),
    }
}


/// Hexadecimal digit character for a value in [0, 16).
pub open spec fn spec_hex_char(d: int) -> char {
    if d == 0 { '0' } else if d == 1 { '1' } else if d == 2 { '2' } else if d == 3 { '3' }
    else if d == 4 { '4' } else if d == 5 { '5' } else if d == 6 { '6' } else if d == 7 { '7' }
    else if d == 8 { '8' } else if d == 9 { '9' } else if d == 10 { 'a' } else if d == 11 { 'b' }
    else if d == 12 { 'c' } else if d == 13 { 'd' } else if d == 14 { 'e' } else { 'f' }
}

/// How one character is written inside a JSON string literal: quotes and
/// backslashes are escaped, control characters use their short escapes or a
/// `\u00` escape, and everything else stands as itself.
pub open spec fn spec_escape_char(c: char) -> Seq<char> {
    if c == '"' {
        seq!['\\', '"']
    } else if c == '\\' {
        seq!['\\', '\\']
    } else if c == '\u{8}' {
        seq!['\\', 'b']
    } else if c == '\t' {
        seq!['\\', 't']
    } else if c == '\n' {
        seq!['\\', 'n']
    } else if c == '\u{c}' {
        seq!['\\', 'f']
    } else if c == '\r' {
        seq!['\\', 'r']
    } else if (c as u32) < 0x20 {
        seq!['\\', 'u', '0', '0', spec_hex_char(c as u32 as int / 16), spec_hex_char(c as u32 as int % 16)]
    } else {
        seq![c]
    }
}

/// A string's characters as written inside a JSON string literal.
pub open spec fn spec_escape(s: Seq<char>) -> Seq<char>
    decreases s.len(),
{
    if s.len() == 0 {
        Seq::empty()
    } else {
        spec_escape(s.drop_last()) + spec_escape_char(s.last())
    }
}

/// What re-serializing a deploy yields: required fields always, optional
/// fields only when present — a field that was never decoded as present is
/// never emitted — and a present `self_mint` as the string "true"/"false".
pub open spec fn spec_encode_deploy(d: DeployView) -> Seq<char> {
    "{\"tick\":\""@ + spec_escape(d.tick) + "\",\"max\":\""@ + spec_escape(d.max_supply) + "\""@
        + (match d.mint_limit {
        None => Seq::<char>::empty(),
        Some(l) => ",\"lim\":\""@ + spec_escape(l) + "\""@,
    }) + (match d.decimals {
        None => Seq::<char>::empty(),
        Some(l) => ",\"dec\":\""@ + spec_escape(l) + "\""@,
    }) + (match d.self_mint {
        None => Seq::<char>::empty(),
        Some(true) => ",\"self_mint\":\"true\""@,
        Some(false) => ",\"self_mint\":\"false\""@,
    }) + "}"@
}

/// A deploy with no optional field re-encodes to exactly the two required
/// keys: absent fields are omitted, never emitted as empty.
pub proof fn lemma_encode_omits_absent(d: DeployView)
    requires
        d.mint_limit is None,
        d.decimals is None,
        d.self_mint is None,
    ensures
        spec_encode_deploy(d) =~= "{\"tick\":\""@ + spec_escape(d.tick) + "\",\"max\":\""@
            + spec_escape(d.max_supply) + "\"}"@,
{
    reveal_strlit("\"");
    reveal_strlit("}");
    reveal_strlit("\"}");
}

fn hex_char(d: u32) -> (r: char)
    requires
        d < 16,
    ensures
        r == spec_hex_char(d as int),
{
    if d == 0 { '0' } else if d == 1 { '1' } else if d == 2 { '2' } else if d == 3 { '3' }
    else if d == 4 { '4' } else if d == 5 { '5' } else if d == 6 { '6' } else if d == 7 { '7' }
    else if d == 8 { '8' } else if d == 9 { '9' } else if d == 10 { 'a' } else if d == 11 { 'b' }
    else if d == 12 { 'c' } else if d == 13 { 'd' } else if d == 14 { 'e' } else { 'f' }
}

/// The characters of `s` as written inside a JSON string literal.
fn escape_chars(s: &Vec<char>) -> (r: Vec<char>)
    ensures
        r@ == spec_escape(s@),
{
    let mut out: Vec<char> = Vec::new();
    let mut i: usize = 0;
    while i < s.len()
        invariant
            i <= s.len(),
            out@ == spec_escape(s@.take(i as int)),
        decreases s.len() - i,
    {
        let c = s[i];
        let ghost before = out@;
        if c == '"' {
            out.push('\\');
            out.push('"');
        } else if c == '\\' {
            out.push('\\');
            out.push('\\');
        } else if c == '\u{8}' {
            out.push('\\');
            out.push('b');
        } else if c == '\t' {
            out.push('\\');
            out.push('t');
        } else if c == '\n' {
            out.push('\\');
            out.push('n');
        } else if c == '\u{c}' {
            out.push('\\');
            out.push('f');
        } else if c == '\r' {
            out.push('\\');
            out.push('r');
        } else if (c as u32) < 0x20 {
            out.push('\\');
            out.push('u');
            out.push('0');
            out.push('0');
            out.push(hex_char(c as u32 / 16));
            out.push(hex_char(c as u32 % 16));
        } else {
            out.push(c);
        }
        proof {
            assert(s@.take(i + 1).drop_last() =~= s@.take(i as int));
            assert(s@.take(i + 1).last() == s@[i as int]);
            assert(out@ =~= before + spec_escape_char(s@[i as int]));
        }
        i = i + 1;
    }
    proof {
        assert(s@.take(s@.len() as int) =~= s@);
    }
    out
}

fn append_escaped(out: &mut String, s: &String)
    ensures
        final(out)@ == old(out)@ + spec_escape(s@),
{
    let cs = str_chars(s.as_str());
    let escaped = escape_chars(&cs);
    let piece = chars_to_string(&escaped);
    out.append(piece.as_str());
}

impl Deploy {
    /// The canonical JSON text of this deploy, as the wire format carries
    /// it: required fields first, optional fields only when present.
    pub fn to_json_string(&self) -> (r: String)
        ensures
            r@ == spec_encode_deploy(self@),
    {
        let mut out = String::new();
        out.append("{\"tick\":\"");
        append_escaped(&mut out, &self.tick);
        out.append("\",\"max\":\"");
        append_escaped(&mut out, &self.max_supply);
        out.append("\"");
        match &self.mint_limit {
            None => {},
            Some(l) => {
                out.append(",\"lim\":\"");
                append_escaped(&mut out, l);
                out.append("\"");
            },
        }
        match &self.decimals {
            None => {},
            Some(l) => {
                out.append(",\"dec\":\"");
                append_escaped(&mut out, l);
                out.append("\"");
            },
        }
        match self.self_mint {
            None => {},
            Some(true) => {
                out.append(",\"self_mint\":\"true\"");
            },
            Some(false) => {
                out.append(",\"self_mint\":\"false\"");
            },
        }
        out.append("}");
        out
    }
}


} // verus!
