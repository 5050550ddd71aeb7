//! The body-processing pipeline: a structured value and a declared content
//! type in, a normalized serialized body and an inferred content type out.
//!
//! A mapping- or sequence-shaped root is converted to canonical JSON and
//! serialized; the "body" rule category is made sure to exist so that rule
//! descriptors can be registered against it. The walk that recognizes
//! matcher and generator markers inside the value belongs to the external
//! matching engine and is out of this library's scope: no descriptors are
//! registered here, and the generator sink is handed back unchanged. A
//! string root bypasses processing and is stored as the raw literal body.

use vstd::prelude::*;

use crate::json_text::{json_bytes, to_json_bytes};
use crate::pact::{
    opt_text_model, spec_ensure_category, BodyModel, GeneratorSet, OptionalBody, RuleSet,
};
use crate::value::{
    spec_shape_name, to_canon, to_canonical, ConversionError, DynamicValue, ValueModel,
};
use vstd::utf8::encode_utf8;

verus! {

/// Why a body could not be processed.
#[derive(Debug, PartialEq, Eq)]
pub enum BodyError {
    /// A value inside the body was of an unrecognized host kind.
    Conversion(ConversionError),
    /// The root value's shape is not mapping, sequence, or string.
    UnsupportedBodyType { actual: String },
}

// ---------------------------------------------------------------------------
// Content types
// ---------------------------------------------------------------------------

/// Whether a content type indicates JSON: this library's rule is that the
/// type names "json" somewhere, which covers the plain JSON type and the
/// "+json" suffix forms.
pub open spec fn spec_content_type_is_json(s: Seq<char>) -> bool {
    exists|k: int|
        0 <= k && k + 4 <= s.len() && #[trigger] s[k] == 'j' && s[k + 1] == 's' && s[k + 2] == 'o'
            && s[k + 3] == 'n'
}

#[verifier::loop_isolation(false)]
pub fn content_type_is_json(s: &str) -> (r: bool)
    ensures
        r == spec_content_type_is_json(s@),
{
    let len = s.unicode_len();
    if len < 4 {
        return false;
    }
    let mut k: usize = 0;
    while k <= len - 4
        invariant
            k <= len,
            forall|k2: int|
                0 <= k2 < k ==> !(#[trigger] s@[k2] == 'j' && s@[k2 + 1] == 's' && s@[k2 + 2] == 'o'
                    && s@[k2 + 3] == 'n'),
        decreases len - k,
    {
        if s.get_char(k) == 'j' && s.get_char(k + 1) == 's' && s.get_char(k + 2) == 'o'
            && s.get_char(k + 3) == 'n' {
            proof {
                assert(s@[k as int] == 'j' && s@[k as int + 1] == 's' && s@[k as int + 2] == 'o'
                    && s@[k as int + 3] == 'n');
            }
            return true;
        }
        k = k + 1;
    }
    proof {
        assert forall|k2: int|
            0 <= k2 && k2 + 4 <= s@.len() implies !(#[trigger] s@[k2] == 'j' && s@[k2 + 1] == 's'
            && s@[k2 + 2] == 'o' && s@[k2 + 3] == 'n') by {
            assert(k2 < k);
        }
    }
    false
}

/// The content type a processed structured body is stored with: the
/// declared one, or JSON where none was declared.
pub open spec fn spec_effective_ct(declared: Option<Seq<char>>) -> Seq<char> {
    match declared {
        Option::Some(ct) => ct,
        Option::None => "application/json"@,
    }
}

/// The content type the processor reports back for the enclosing message's
/// headers: JSON where none was declared, the declared type where it
/// indicates JSON, and nothing where a different type was declared, since
/// the declaration takes precedence.
pub open spec fn spec_inferred_ct(declared: Option<Seq<char>>) -> Option<Seq<char>> {
    match declared {
        Option::None => Option::Some("application/json"@),
        Option::Some(ct) => if spec_content_type_is_json(ct) {
            Option::Some(ct)
        } else {
            Option::None
        },
    }
}

// ---------------------------------------------------------------------------
// The processor
// ---------------------------------------------------------------------------

/// Processes a body value against a declared content type. Structured
/// roots become normalized JSON text; a string root is stored verbatim; any
/// other shape is refused. The rule sink gains the "body" category for
/// structured roots; the generator sink is never changed.
pub fn process_body(
    value: &DynamicValue,
    declared: &Option<String>,
    rules: &mut RuleSet,
    generators: &mut GeneratorSet,
) -> (r: Result<(OptionalBody, Option<String>), BodyError>)
    ensures
        final(generators)@ == old(generators)@,
        match value@ {
            ValueModel::Text(s) => {
                &&& r matches Ok((body, inferred))
                &&& body@ == BodyModel::Present(encode_utf8(s), opt_text_model(*declared))
                &&& inferred is None
                &&& final(rules)@ == old(rules)@
            },
            ValueModel::Mapping(_) => spec_processed_outcome(
                value@,
                opt_text_model(*declared),
                r,
                old(rules)@,
                final(rules)@,
            ),
            ValueModel::Sequence(_) => spec_processed_outcome(
                value@,
                opt_text_model(*declared),
                r,
                old(rules)@,
                final(rules)@,
            ),
            _ => {
                &&& r matches Err(BodyError::UnsupportedBodyType { actual })
                &&& actual@ == spec_shape_name(value@)
                &&& final(rules)@ == old(rules)@
            },
        },
{
    match value {
        DynamicValue::Text(s) => {
            let bytes = s.as_str().as_bytes_vec();
            let ct: Option<String> = match declared {
                Option::Some(c) => Option::Some(c.clone()),
                Option::None => Option::None,
            };
            Ok((OptionalBody::Present(bytes, ct), Option::None))
        },
        DynamicValue::Mapping(_) | DynamicValue::Sequence(_) => {
            match to_canonical(value) {
                Err(e) => Err(BodyError::Conversion(e)),
                Ok(j) => {
                    let bytes = to_json_bytes(&j);
                    rules.ensure_category(String::from_str("body"));
                    let effective: String = match declared {
                        Option::Some(c) => c.clone(),
                        Option::None => String::from_str("application/json"),
                    };
                    let inferred: Option<String> = match declared {
                        Option::None => Option::Some(String::from_str("application/json")),
                        Option::Some(c) => {
                            if content_type_is_json(c.as_str()) {
                                Option::Some(c.clone())
                            } else {
                                Option::None
                            }
                        },
                    };
                    Ok((OptionalBody::Present(bytes, Option::Some(effective)), inferred))
                },
            }
        },
        _ => Err(BodyError::UnsupportedBodyType { actual: value.shape_name() }),
    }
}

/// What processing a structured root yields: on a convertible value, the
/// serialized canonical JSON with the effective content type, the inferred
/// content type, and the "body" rule category made sure to exist; on an
/// unconvertible value, the conversion error, with the rule sink unchanged.
pub open spec fn spec_processed_outcome(
    m: ValueModel,
    declared: Option<Seq<char>>,
    r: Result<(OptionalBody, Option<String>), BodyError>,
    rules_before: Seq<crate::pact::RuleCategoryModel>,
    rules_after: Seq<crate::pact::RuleCategoryModel>,
) -> bool {
    match to_canon(m) {
        Ok(j) => {
            &&& r matches Ok((body, inferred))
            &&& body@ == BodyModel::Present(
                json_bytes(j),
                Option::Some(spec_effective_ct(declared)),
            )
            &&& opt_text_model(inferred) == spec_inferred_ct(declared)
            &&& rules_after == spec_ensure_category(rules_before, "body"@)
        },
        Err(e) => {
            &&& r matches Err(BodyError::Conversion(ce))
            &&& ce@ == e
            &&& rules_after == rules_before
        },
    }
}

} // verus!
