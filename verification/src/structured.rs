//! Validation of structured model output against the subset of JSON Schema
//! the adapters rely on: the value's `type`, the `required` keys of an
//! object and the `type` of each listed property.
use crate::json::{
    json_array_strs, json_entries, json_field, json_field_of, json_field_str, json_kind,
    json_kind_of, json_object_entries, json_parse, json_str_field, json_str_items, parse_json_text,
    JsonKind,
};
use crate::model::{
    ModelAdapterError, StructuredOutput, StructuredOutputFormat, StructuredOutputRepairPolicy,
};
use crate::text::{owned, push_str, str_eq};
use vstd::prelude::*;

verus! {

/// Whether a value of kind `kind` is an integer: a number that `as_i64`
/// or `as_u64` reads.
pub open spec fn is_integer_kind(kind: JsonKind) -> bool {
    match kind {
        JsonKind::Number { as_i64, as_u64 } => as_i64 is Some || as_u64 is Some,
        _ => false,
    }
}

/// Whether a value of kind `kind` has the JSON Schema type `expected`;
/// `None` for a type name the validator does not know.
pub open spec fn kind_fits(kind: JsonKind, expected: Seq<char>) -> Option<bool> {
    if expected == "object"@ {
        Some(kind matches JsonKind::Object)
    } else if expected == "array"@ {
        Some(kind matches JsonKind::Array)
    } else if expected == "string"@ {
        Some(kind matches JsonKind::String)
    } else if expected == "number"@ {
        Some(kind matches JsonKind::Number { .. })
    } else if expected == "integer"@ {
        Some(is_integer_kind(kind))
    } else if expected == "boolean"@ {
        Some(kind matches JsonKind::Bool)
    } else if expected == "null"@ {
        Some(kind matches JsonKind::Null)
    } else {
        None
    }
}

/// The complaint about `value` at `path` when it does not have the known
/// type `expected`.
pub open spec fn type_violation(value: serde_json::Value, expected: Seq<char>, path: Seq<char>) -> Option<Seq<char>> {
    match kind_fits(json_kind_of(value), expected) {
        Some(false) => Some(path + ": expected "@ + expected),
        _ => None,
    }
}

/// The first key from position `i` on of the required `keys` (non-string
/// entries skipped) that `value` lacks.
pub open spec fn first_missing(value: serde_json::Value, keys: Seq<Option<Seq<char>>>, i: int) -> Option<Seq<char>>
    decreases keys.len() - i,
{
    if 0 <= i < keys.len() {
        match keys[i] {
            Some(k) => if json_field_of(value, k) is None {
                Some(k)
            } else {
                first_missing(value, keys, i + 1)
            },
            None => first_missing(value, keys, i + 1),
        }
    } else {
        None
    }
}

/// The type complaint about the property of `entries[i]`, when `value` has
/// that property and the property's schema names a type.
pub open spec fn property_violation(value: serde_json::Value, entry: (Seq<char>, serde_json::Value)) -> Option<Seq<char>> {
    match (json_field_of(value, entry.0), json_field_str(entry.1, "type"@)) {
        (Some(pv), Some(pt)) => type_violation(pv, pt, "$."@ + entry.0),
        _ => None,
    }
}

/// The first property complaint from position `i` on.
pub open spec fn first_property_violation(value: serde_json::Value, entries: Seq<(Seq<char>, serde_json::Value)>, i: int) -> Option<Seq<char>>
    decreases entries.len() - i,
{
    if 0 <= i < entries.len() {
        match property_violation(value, entries[i]) {
            Some(m) => Some(m),
            None => first_property_violation(value, entries, i + 1),
        }
    } else {
        None
    }
}

/// The complaint about `value` from the `type` of `schema`.
pub open spec fn root_type_violation(value: serde_json::Value, schema: serde_json::Value) -> Option<Seq<char>> {
    match json_field_str(schema, "type"@) {
        Some(t) => type_violation(value, t, "$"@),
        None => None,
    }
}

/// The complaint about `value` from the `required` list of `schema`.
pub open spec fn required_violation(value: serde_json::Value, schema: serde_json::Value) -> Option<Seq<char>> {
    match json_field_of(schema, "required"@) {
        Some(req) => match json_array_strs(req) {
            Some(keys) => if !(json_kind_of(value) matches JsonKind::Object) {
                Some("$: expected object for required properties"@)
            } else {
                match first_missing(value, keys, 0) {
                    Some(k) => Some("$: missing required property `"@ + k + "`"@),
                    None => None,
                }
            },
            None => None,
        },
        None => None,
    }
}

/// The complaint about `value` from the `properties` of `schema`.
pub open spec fn properties_violation(value: serde_json::Value, schema: serde_json::Value) -> Option<Seq<char>> {
    match json_field_of(schema, "properties"@) {
        Some(props) => match json_object_entries(props) {
            Some(entries) => if !(json_kind_of(value) matches JsonKind::Object) {
                Some("$: expected object for properties"@)
            } else {
                first_property_violation(value, entries, 0)
            },
            None => None,
        },
        None => None,
    }
}

/// The first complaint about `value` under `schema`: its type, then its
/// required keys, then its properties; `None` when it conforms.
pub open spec fn schema_violation(value: serde_json::Value, schema: serde_json::Value) -> Option<Seq<char>> {
    let t = root_type_violation(value, schema);
    if t is Some {
        t
    } else {
        let r = required_violation(value, schema);
        if r is Some {
            r
        } else {
            properties_violation(value, schema)
        }
    }
}

/// The parsed value of `raw` when it parses and conforms to the schema of
/// `format`.
pub open spec fn conforming_value(format: StructuredOutputFormat, raw: Seq<char>) -> Option<serde_json::Value> {
    match json_parse(raw) {
        Ok(v) => if schema_violation(v, format.schema) is None {
            Some(v)
        } else {
            None
        },
        Err(_) => None,
    }
}

/// One validation of `raw` against `format` gives `r`: the parsed value
/// when it conforms; a malformed-output error naming the format and the
/// parse error; or a schema-violation error with the first complaint.
pub open spec fn validation_outcome(
    format: StructuredOutputFormat,
    raw: Seq<char>,
    r: Result<StructuredOutput, ModelAdapterError>,
) -> bool {
    match json_parse(raw) {
        Err(e) => r matches Err(ModelAdapterError::MalformedStructuredOutput(m)) && m@ == format.name@
            + ": "@ + e,
        Ok(v) => match schema_violation(v, format.schema) {
            Some(c) => r matches Err(ModelAdapterError::StructuredOutputSchemaViolation(m)) && m@
                == c,
            None => r == Ok::<StructuredOutput, ModelAdapterError>(StructuredOutput { value: v }),
        },
    }
}

/// The message of the error that one validation of `raw` against `format`
/// fails with.
pub open spec fn failure_message(format: StructuredOutputFormat, raw: Seq<char>) -> Seq<char> {
    match json_parse(raw) {
        Err(e) => "malformed structured output: "@ + format.name@ + ": "@ + e,
        Ok(v) => "structured output schema violation: "@ + schema_violation(v, format.schema).unwrap_or(
            Seq::empty(),
        ),
    }
}

/// What validation gives after a repair policy answered `repaired` for a
/// first attempt that failed with `first`: that error when there was no
/// repair; else the repaired text's value when it conforms, or a
/// repair-failure error with the message of its own validation error.
pub open spec fn repair_outcome(
    format: StructuredOutputFormat,
    first: ModelAdapterError,
    repaired: Option<Seq<char>>,
    r: Result<StructuredOutput, ModelAdapterError>,
) -> bool {
    match repaired {
        None => r == Err::<StructuredOutput, ModelAdapterError>(first),
        Some(t) => match conforming_value(format, t) {
            Some(v) => r == Ok::<StructuredOutput, ModelAdapterError>(StructuredOutput { value: v }),
            None => r matches Err(ModelAdapterError::StructuredOutputRepairFailed(m)) && m@
                == failure_message(format, t),
        },
    }
}

/// Whether `expected` is a type name the validator knows, and whether a
/// value of kind `kind` has it.
fn kind_has_type(kind: JsonKind, expected: &str) -> (r: Option<bool>)
    ensures
        r == kind_fits(kind, expected@),
{
    if str_eq(expected, "object") {
        Some(matches!(kind, JsonKind::Object))
    } else if str_eq(expected, "array") {
        Some(matches!(kind, JsonKind::Array))
    } else if str_eq(expected, "string") {
        Some(matches!(kind, JsonKind::String))
    } else if str_eq(expected, "number") {
        Some(matches!(kind, JsonKind::Number { .. }))
    } else if str_eq(expected, "integer") {
        Some(match kind {
            JsonKind::Number { as_i64, as_u64 } => as_i64.is_some() || as_u64.is_some(),
            _ => false,
        })
    } else if str_eq(expected, "boolean") {
        Some(matches!(kind, JsonKind::Bool))
    } else if str_eq(expected, "null") {
        Some(matches!(kind, JsonKind::Null))
    } else {
        None
    }
}

/// Checks that `value` has the JSON Schema type `expected` (any value
/// passes an unknown type name); the error names `path`.
pub fn validate_json_type(value: &serde_json::Value, expected: &str, path: &str) -> (r: Result<(), String>)
    ensures
        match r {
            Ok(()) => type_violation(*value, expected@, path@) is None,
            Err(m) => type_violation(*value, expected@, path@) == Some(m@),
        },
{
    let kind = json_kind(value);
    match kind_has_type(kind, expected) {
        Some(false) => {
            let mut m = owned(path);
            push_str(&mut m, ": expected ");
            push_str(&mut m, expected);
            Err(m)
        },
        _ => Ok(()),
    }
}

/// The first of `keys` (non-strings skipped) that `value` lacks.
fn find_missing(value: &serde_json::Value, keys: &Vec<Option<String>>) -> (r: Option<String>)
    ensures
        first_missing(
            *value,
            keys@.map_values(
                |o: Option<String>|
                    match o {
                        Some(s) => Some(s@),
                        None => None::<Seq<char>>,
                    },
            ),
            0,
        ) == match r {
            Some(k) => Some(k@),
            None => None::<Seq<char>>,
        },
{
    let ghost strs = keys@.map_values(
        |o: Option<String>|
            match o {
                Some(s) => Some(s@),
                None => None::<Seq<char>>,
            },
    );
    let n: usize = keys.len();
    let mut i: usize = 0;
    while i < n
        invariant
            n == keys.len(),
            i <= n,
            strs.len() == n,
            strs == keys@.map_values(
                |o: Option<String>|
                    match o {
                        Some(s) => Some(s@),
                        None => None::<Seq<char>>,
                    },
            ),
            first_missing(*value, strs, 0) == first_missing(*value, strs, i as int),
        decreases n - i,
    {
        match &keys[i] {
            Some(k) => {
                let present = json_field(value, k.as_str());
                if present.is_none() {
                    return Some(k.clone());
                }
            },
            None => {},
        }
        i = i + 1;
    }
    None
}

/// The first type complaint about the properties listed in `entries`.
fn find_property_violation(value: &serde_json::Value, entries: &Vec<(String, serde_json::Value)>) -> (r: Option<String>)
    ensures
        first_property_violation(
            *value,
            entries@.map_values(|e: (String, serde_json::Value)| (e.0@, e.1)),
            0,
        ) == match r {
            Some(m) => Some(m@),
            None => None::<Seq<char>>,
        },
{
    let ghost es = entries@.map_values(|e: (String, serde_json::Value)| (e.0@, e.1));
    let n: usize = entries.len();
    let mut i: usize = 0;
    while i < n
        invariant
            n == entries.len(),
            i <= n,
            es.len() == n,
            es == entries@.map_values(|e: (String, serde_json::Value)| (e.0@, e.1)),
            first_property_violation(*value, es, 0) == first_property_violation(*value, es, i as int),
        decreases n - i,
    {
        let (key, property_schema) = &entries[i];
        assert(es[i as int] == (key@, *property_schema));
        let property_value = json_field(value, key.as_str());
        let property_type = json_str_field(property_schema, "type");
        match (property_value, property_type) {
            (Some(pv), Some(pt)) => {
                let mut path = owned("$.");
                push_str(&mut path, key.as_str());
                match validate_json_type(&pv, pt.as_str(), path.as_str()) {
                    Err(m) => {
                        return Some(m);
                    },
                    Ok(()) => {},
                }
            },
            _ => {},
        }
        i = i + 1;
    }
    None
}

/// Checks `value` against the supported subset of `schema`: its `type`,
/// its `required` keys and the `type` of each of its `properties`; the
/// error is the first complaint.
pub fn validate_json_schema_subset(value: &serde_json::Value, schema: &serde_json::Value) -> (r: Result<(), String>)
    ensures
        match r {
            Ok(()) => schema_violation(*value, *schema) is None,
            Err(m) => schema_violation(*value, *schema) == Some(m@),
        },
{
    match json_str_field(schema, "type") {
        Some(t) => match validate_json_type(value, t.as_str(), "$") {
            Err(m) => {
                return Err(m);
            },
            Ok(()) => {},
        },
        None => {},
    }
    proof {
        reveal_strlit("$");
    }
    assert(root_type_violation(*value, *schema) is None);
    let is_object = matches!(json_kind(value), JsonKind::Object);
    match json_field(schema, "required") {
        Some(required) => match json_str_items(&required) {
            Some(keys) => {
                if !is_object {
                    return Err(owned("$: expected object for required properties"));
                }
                match find_missing(value, &keys) {
                    Some(k) => {
                        let mut m = owned("$: missing required property `");
                        push_str(&mut m, k.as_str());
                        push_str(&mut m, "`");
                        return Err(m);
                    },
                    None => {},
                }
            },
            None => {},
        },
        None => {},
    }
    assert(required_violation(*value, *schema) is None);
    match json_field(schema, "properties") {
        Some(properties) => match json_entries(&properties) {
            Some(entries) => {
                if !is_object {
                    return Err(owned("$: expected object for properties"));
                }
                match find_property_violation(value, &entries) {
                    Some(m) => Err(m),
                    None => Ok(()),
                }
            },
            None => Ok(()),
        },
        None => Ok(()),
    }
}

/// Deterministic structured output validator for JSON object schemas, with
/// an optional policy that may repair output that fails validation.
pub struct StructuredOutputValidator<'a, P> {
    format: &'a StructuredOutputFormat,
    repair_policy: Option<&'a P>,
}

impl<'a> StructuredOutputValidator<'a, crate::model::NoopStructuredOutputRepairPolicy> {
    /// A validator for `format` without a repair policy.
    pub fn new(format: &'a StructuredOutputFormat) -> (r: Self)
        ensures
            r.format_spec() == *format,
            !r.has_repair_policy(),
    {
        StructuredOutputValidator { format, repair_policy: None }
    }
}

impl<'a, P: StructuredOutputRepairPolicy> StructuredOutputValidator<'a, P> {
    /// The format validated against.
    pub closed spec fn format_spec(&self) -> StructuredOutputFormat {
        *self.format
    }

    /// Whether the validator holds a repair policy.
    pub closed spec fn has_repair_policy(&self) -> bool {
        self.repair_policy is Some
    }

    /// A validator for `format` that consults `repair_policy` when output
    /// fails validation.
    pub fn with_repair_policy(format: &'a StructuredOutputFormat, repair_policy: &'a P) -> (r: Self)
        ensures
            r.format_spec() == *format,
            r.has_repair_policy(),
    {
        StructuredOutputValidator { format, repair_policy: Some(repair_policy) }
    }

    /// Validates `raw` once: it must parse as JSON and conform to the
    /// format's schema.
    pub fn validate_once(&self, raw: &str) -> (r: Result<StructuredOutput, ModelAdapterError>)
        ensures
            validation_outcome(self.format_spec(), raw@, r),
    {
        match parse_json_text(raw) {
            Err(e) => {
                let mut m = owned(self.format.name.as_str());
                push_str(&mut m, ": ");
                push_str(&mut m, e.as_str());
                Err(ModelAdapterError::MalformedStructuredOutput(m))
            },
            Ok(value) => match validate_json_schema_subset(&value, &self.format.schema) {
                Err(m) => Err(ModelAdapterError::StructuredOutputSchemaViolation(m)),
                Ok(()) => Ok(StructuredOutput { value }),
            },
        }
    }

    /// Finishes a validation whose first attempt failed with `first`, once
    /// the repair policy answered `repaired`: without a repair the first
    /// error stands; a repaired text is validated once more, and its
    /// failure is reported as a repair failure.
    pub fn finish_repair(&self, first: ModelAdapterError, repaired: Option<String>) -> (r: Result<
        StructuredOutput,
        ModelAdapterError,
    >)
        ensures
            repair_outcome(
                self.format_spec(),
                first,
                match repaired {
                    Some(t) => Some(t@),
                    None => None::<Seq<char>>,
                },
                r,
            ),
    {
        match repaired {
            None => Err(first),
            Some(text) => match self.validate_once(text.as_str()) {
                Ok(output) => Ok(output),
                Err(repair_error) => {
                    let m = repair_error.to_string();
                    proof {
                        let fmt = self.format_spec();
                        match json_parse(text@) {
                            Err(e) => {
                                assert("malformed structured output: "@ + (fmt.name@ + ": "@ + e)
                                    =~= "malformed structured output: "@ + fmt.name@ + ": "@ + e);
                            },
                            Ok(v) => {},
                        }
                    }
                    Err(ModelAdapterError::StructuredOutputRepairFailed(m))
                },
            },
        }
    }

    /// Validates `raw`; when it fails and a repair policy is held, the
    /// policy is given `raw`, the format and the error, and its repaired
    /// text, if any, is validated in turn.
    pub fn validate(&self, raw: &str) -> (r: Result<StructuredOutput, ModelAdapterError>)
        ensures
            !self.has_repair_policy() ==> validation_outcome(self.format_spec(), raw@, r),
            conforming_value(self.format_spec(), raw@) matches Some(v) ==> r == Ok::<
                StructuredOutput,
                ModelAdapterError,
            >(StructuredOutput { value: v }),
            self.has_repair_policy() && conforming_value(self.format_spec(), raw@) is None ==> exists|
                first: ModelAdapterError,
                repaired: Option<Seq<char>>,
            |
                validation_outcome(self.format_spec(), raw@, Err(first)) && #[trigger] repair_outcome(
                    self.format_spec(),
                    first,
                    repaired,
                    r,
                ),
    {
        match self.validate_once(raw) {
            Ok(output) => Ok(output),
            Err(error) => match self.repair_policy {
                None => Err(error),
                Some(policy) => {
                    let repaired = policy.repair(raw, self.format, &error);
                    let ghost first = error;
                    let ghost rep = match &repaired {
                        Some(t) => Some(t@),
                        None => None::<Seq<char>>,
                    };
                    let r = self.finish_repair(error, repaired);
                    assert(repair_outcome(self.format_spec(), first, rep, r));
                    r
                },
            },
        }
    }
}

} // verus!
