//! The schema validator: a named rule of a CDDL schema document, checked
//! against binary payloads.
//!
//! Validating rule `R` of document `D` against bytes `B` means: prepend
//! the synthetic root rule `start = R` to `D`, and ask the schema engine
//! whether `B` conforms to `start`. The synthetic name must collide with
//! no rule of `D`, which construction checks. A conforming payload
//! validates; a non-conforming one (or a failing engine) yields the
//! engine's diagnostic, which the scenario driver treats as fatal.
//!
//! The engine aborts the process on a few input shapes instead of
//! returning an error: schema text holding any character outside ASCII
//! (its lexer slices the input by byte ranges that assume one-byte
//! characters), a `b64'…'` byte-string literal whose stripped content
//! length is not a multiple of four (its lexer unwraps the decode-length
//! computation), an `h'…'` byte-string literal with more than 2048
//! digits (its decoder panics on a fixed buffer), an `.abnf`/`.abnfb`
//! control operator (its validator unwraps the grammar translation), and
//! — when a schema uses the `time` type — a tag-1 integer outside the
//! signed 64-bit range (an unwrapped conversion). The library's
//! functions never abort, so verified pre-scans refuse those shapes, a
//! little conservatively (any `b64'` opening or `.abnf` occurrence is
//! refused, and the scans do not see string or comment context), before
//! anything reaches the engine.

use vstd::prelude::*;

use crate::text::{find_char, find_from, lemma_find_from, str_eq};
use crate::ErrView;
use crate::ScenarioError;

verus! {

/// Whether the characters at `i` open a base64 byte-string literal.
pub open spec fn b64_open_at(s: Seq<char>, i: int) -> bool {
    &&& 0 <= i
    &&& i + 3 < s.len()
    &&& s[i] == 'b'
    &&& s[i + 1] == '6'
    &&& s[i + 2] == '4'
    &&& s[i + 3] == '\''
}

/// Whether the characters at `i` open a hexadecimal byte-string literal.
pub open spec fn hex_open_at(s: Seq<char>, i: int) -> bool {
    &&& 0 <= i
    &&& i + 1 < s.len()
    &&& s[i] == 'h'
    &&& s[i + 1] == '\''
}

/// Whether a hexadecimal literal opened at `i` cannot overrun the
/// engine's 2048-digit decode buffer. The lexer takes the character at
/// `i + 2` as the first content character unconditionally, so the
/// literal closes at the first quote from `i + 3` on; it is bounded when
/// that quote lies no more than 2048 characters after the content start
/// with no backslash (a possible escape) before it, or when no such
/// quote exists at all — an unterminated literal is a lexer error before
/// any decoding.
pub open spec fn hex_open_bounded(s: Seq<char>, i: int) -> bool {
    if i + 3 > s.len() {
        true
    } else {
        let q = find_from(s, (i + 3) as nat, '\'');
        let b = find_from(s, (i + 2) as nat, '\\');
        match q {
            Some(qj) => (b is None || qj < b->Some_0) && qj <= i + 2 + 2048,
            None => true,
        }
    }
}

/// Whether the characters at `i` spell the opening of an `.abnf` or
/// `.abnfb` control operator.
pub open spec fn abnf_open_at(s: Seq<char>, i: int) -> bool {
    &&& 0 <= i
    &&& i + 4 < s.len()
    &&& s[i] == '.'
    &&& s[i + 1] == 'a'
    &&& s[i + 2] == 'b'
    &&& s[i + 3] == 'n'
    &&& s[i + 4] == 'f'
}

/// Schema text the engine is known to process without aborting: ASCII
/// characters only, no base64 byte-string literal at all, every
/// hexadecimal literal bounded by the engine's decode buffer, and no
/// `.abnf`/`.abnfb` control operator.
pub open spec fn schema_text_safe(s: Seq<char>) -> bool {
    &&& forall|i: int| 0 <= i < s.len() ==> ((#[trigger] s[i]) as u32) < 128
    &&& forall|i: int| !(#[trigger] b64_open_at(s, i))
    &&& forall|i: int| #[trigger] hex_open_at(s, i) ==> hex_open_bounded(s, i)
    &&& forall|i: int| !(#[trigger] abnf_open_at(s, i))
}

/// Whether the bytes at `i` spell a tag-1 date header around an eight-byte
/// integer outside the signed 64-bit range — the shape whose conversion
/// the engine's `time` validation unwraps.
pub open spec fn tag_time_overflow_at(p: Seq<u8>, i: int) -> bool {
    &&& 0 <= i
    &&& i + 10 <= p.len()
    &&& p[i] == 0xc1
    &&& (p[i + 1] == 0x1b || p[i + 1] == 0x3b)
    &&& p[i + 2] >= 0x80
}

/// Payload bytes the engine's `time` validation cannot abort on.
pub open spec fn payload_time_safe(p: Seq<u8>) -> bool {
    forall|i: int| !(#[trigger] tag_time_overflow_at(p, i))
}

/// Scan schema text for the shapes the engine aborts on.
fn scan_schema_text(s: &str) -> (r: bool)
    ensures
        r == schema_text_safe(s@),
{
    let len = s.unicode_len();
    let mut i: usize = 0;
    while i < len
        invariant
            i <= len == s@.len(),
            forall|k: int| 0 <= k < i ==> ((#[trigger] s@[k]) as u32) < 128,
            forall|k: int| 0 <= k < i ==> !(#[trigger] b64_open_at(s@, k)),
            forall|k: int| 0 <= k < i ==> (#[trigger] hex_open_at(s@, k)) ==> hex_open_bounded(
                s@,
                k,
            ),
            forall|k: int| 0 <= k < i ==> !(#[trigger] abnf_open_at(s@, k)),
        decreases len - i,
    {
        let c = s.get_char(i);
        if (c as u32) >= 128 {
            return false;
        }
        if c == '.' && len - i > 4 {
            if s.get_char(i + 1) == 'a' && s.get_char(i + 2) == 'b' && s.get_char(i + 3) == 'n'
                && s.get_char(i + 4) == 'f' {
                assert(abnf_open_at(s@, i as int));
                return false;
            }
        }
        if c == 'b' && len - i > 3 {
            if s.get_char(i + 1) == '6' && s.get_char(i + 2) == '4' && s.get_char(i + 3) == '\'' {
                assert(b64_open_at(s@, i as int));
                return false;
            }
        }
        if c == 'h' && len - i > 2 {
            if s.get_char(i + 1) == '\'' {
                assert(hex_open_at(s@, i as int));
                let q = find_char(s, i + 3, '\'');
                let b = find_char(s, i + 2, '\\');
                proof {
                    lemma_find_from(s@, (i + 3) as nat, '\'');
                    lemma_find_from(s@, (i + 2) as nat, '\\');
                }
                let ok: bool = match (q, b) {
                    (Some(qj), Some(bj)) => qj < bj && qj - (i + 2) <= 2048,
                    (Some(qj), None) => qj - (i + 2) <= 2048,
                    (None, _) => true,
                };
                if !ok {
                    assert(!hex_open_bounded(s@, i as int));
                    return false;
                }
                assert(hex_open_bounded(s@, i as int));
            }
        } else if c == 'h' && len - i == 2 {
            if s.get_char(i + 1) == '\'' {
                assert(hex_open_at(s@, i as int) && hex_open_bounded(s@, i as int));
            }
        }
        assert(!b64_open_at(s@, i as int));
        assert(!abnf_open_at(s@, i as int));
        i = i + 1;
    }
    true
}

/// Scan payload bytes for the tag-1 shape the engine aborts on.
fn scan_payload(p: &Vec<u8>) -> (r: bool)
    ensures
        r == payload_time_safe(p@),
{
    let len = p.len();
    let mut i: usize = 0;
    if len < 10 {
        return true;
    }
    while i <= len - 10
        invariant
            10 <= len == p@.len(),
            i <= len,
            forall|k: int| 0 <= k < i ==> !(#[trigger] tag_time_overflow_at(p@, k)),
        decreases len - i,
    {
        if p[i] == 0xc1 && (p[i + 1] == 0x1b || p[i + 1] == 0x3b) && p[i + 2] >= 0x80 {
            assert(tag_time_overflow_at(p@, i as int));
            return false;
        }
        assert(!tag_time_overflow_at(p@, i as int));
        i = i + 1;
    }
    true
}

pub uninterp spec fn cddl_rules_of(doc: Seq<char>) -> Option<Seq<Seq<char>>>;

/// Relies on cddl::cddl_from_str: whether a CDDL document parses, and the
/// names of its rules in order, depend on the document text alone. The
/// engine's lexer aborts on non-ASCII characters, base64 literals of
/// invalid length and oversized hexadecimal literals, so such documents
/// are excluded; with them gone, its byte-range slices all land on
/// character boundaries.
#[verifier::external_body]
fn schema_rule_names(doc: &str) -> (r: Option<Vec<String>>)
    requires
        schema_text_safe(doc@),
    ensures
        r is Some <==> cddl_rules_of(doc@) is Some,
        r is Some ==> r->Some_0@.map_values(|n: String| n@) == cddl_rules_of(doc@)->Some_0,
{
    match cddl::cddl_from_str(doc, false) {
        Ok(schema) => Some(schema.rules.iter().map(|rule| rule.name()).collect()),
        Err(_) => None,
    }
}

pub uninterp spec fn cddl_verdict(doc: Seq<char>, payload: Seq<u8>) -> bool;

/// Relies on cddl::validate_cbor_from_slice: whether a payload conforms
/// to a CDDL document's `start` rule depends on the document and the
/// bytes alone; a rejection carries the engine's diagnostic. The lexer
/// abort shapes in the document (non-ASCII text, base64 literals,
/// oversized hexadecimal literals), the grammar translation its
/// `.abnf`/`.abnfb` controls unwrap, and the tag-1 conversion its `time`
/// validation unwraps, are excluded.
#[verifier::external_body]
fn cddl_validate(doc: &str, payload: &Vec<u8>) -> (r: Result<(), String>)
    requires
        schema_text_safe(doc@),
        payload_time_safe(payload@),
    ensures
        r is Ok <==> cddl_verdict(doc@, payload@),
{
    match cddl::validate_cbor_from_slice(doc, payload.as_slice(), None) {
        Ok(_) => Ok(()),
        Err(e) => Err(e.to_string()),
    }
}

/// The synthetic document anchoring a named rule as the root.
pub open spec fn synthetic_doc(rule: Seq<char>, schema: Seq<char>) -> Seq<char> {
    "start = "@ + rule + "\n"@ + schema
}

/// A validation request: a rule name known to exist in a schema
/// document, shared read-only by every check.
#[derive(Debug)]
pub struct CddlType {
    name: String,
    schema: String,
}

impl CddlType {
    /// The rule's name.
    pub closed spec fn name(self) -> Seq<char> {
        self.name@
    }

    /// The schema document the rule lives in.
    pub closed spec fn schema(self) -> Seq<char> {
        self.schema@
    }

    /// A well-formed request: the schema parses, it defines the named
    /// rule, and no rule of it collides with the synthetic root's name.
    pub closed spec fn wf(self) -> bool {
        &&& cddl_rules_of(self.schema@) is Some
        &&& cddl_rules_of(self.schema@)->Some_0.contains(self.name@)
        &&& !cddl_rules_of(self.schema@)->Some_0.contains("start"@)
    }

    /// Bind a rule name to a schema document: fails when the document
    /// holds a shape the engine aborts on or does not parse, when one of
    /// its rules collides with the synthetic root's name, or when it has
    /// no rule of the requested name.
    pub fn from_str(name: &str, schema: &str) -> (r: Result<CddlType, ScenarioError>)
        ensures
            match r {
                Ok(c) => schema_text_safe(schema@) && cddl_rules_of(schema@) is Some
                    && cddl_rules_of(schema@)->Some_0.contains(name@) && !cddl_rules_of(
                    schema@,
                )->Some_0.contains("start"@) && c.name() == name@ && c.schema() == schema@
                    && c.wf(),
                Err(e) => (e@ == ErrView::BadSchema && (!schema_text_safe(schema@)
                    || cddl_rules_of(schema@) is None)) || (e@ == (ErrView::ReservedRule {
                    name: "start"@,
                }) && schema_text_safe(schema@) && cddl_rules_of(schema@) is Some && cddl_rules_of(
                    schema@,
                )->Some_0.contains("start"@)) || (e@ == (ErrView::UnknownRule { name: name@ })
                    && schema_text_safe(schema@) && cddl_rules_of(schema@) is Some
                    && !cddl_rules_of(schema@)->Some_0.contains("start"@) && !cddl_rules_of(
                    schema@,
                )->Some_0.contains(name@)),
            },
    {
        if !scan_schema_text(schema) {
            return Err(ScenarioError::BadSchema);
        }
        let rules = match schema_rule_names(schema) {
            Some(rules) => rules,
            None => {
                return Err(ScenarioError::BadSchema);
            },
        };
        let ghost rule_views = rules@.map_values(|n: String| n@);
        let n = rules.len();
        let mut i: usize = 0;
        while i < n
            invariant
                i <= n == rules@.len(),
                rule_views == rules@.map_values(|n2: String| n2@),
                cddl_rules_of(schema@) is Some,
                schema_text_safe(schema@),
                rule_views == cddl_rules_of(schema@)->Some_0,
                forall|k: int| 0 <= k < i ==> rule_views[k] != "start"@,
            decreases n - i,
        {
            if str_eq(rules[i].as_str(), "start") {
                assert(rule_views[i as int] == "start"@);
                assert(rule_views.contains("start"@));
                return Err(ScenarioError::ReservedRule { name: "start".to_owned() });
            }
            i = i + 1;
        }
        proof {
            assert(!rule_views.contains("start"@));
        }
        let mut i: usize = 0;
        while i < n
            invariant
                i <= n == rules@.len(),
                rule_views == rules@.map_values(|n2: String| n2@),
                cddl_rules_of(schema@) is Some,
                schema_text_safe(schema@),
                rule_views == cddl_rules_of(schema@)->Some_0,
                !rule_views.contains("start"@),
                forall|k: int| 0 <= k < i ==> rule_views[k] != name@,
            decreases n - i,
        {
            if str_eq(rules[i].as_str(), name) {
                assert(rule_views[i as int] == name@);
                assert(rule_views.contains(name@));
                return Ok(CddlType { name: name.to_owned(), schema: schema.to_owned() });
            }
            i = i + 1;
        }
        proof {
            assert(!rule_views.contains(name@));
        }
        Err(ScenarioError::UnknownRule { name: name.to_owned() })
    }

    /// Check a payload against this rule. When neither the synthetic
    /// document nor the payload holds a shape the engine aborts on, the
    /// check validates exactly when the engine accepts the payload under
    /// the synthetic root; otherwise it is refused. Every failure carries
    /// a diagnostic.
    pub fn matches(&self, cbor: &Vec<u8>) -> (r: Result<(), ScenarioError>)
        requires
            self.wf(),
        ensures
            schema_text_safe(synthetic_doc(self.name(), self.schema())) && payload_time_safe(cbor@)
                ==> (r is Ok <==> cddl_verdict(synthetic_doc(self.name(), self.schema()), cbor@)),
            !(schema_text_safe(synthetic_doc(self.name(), self.schema())) && payload_time_safe(
                cbor@,
            )) ==> r is Err,
            r is Err ==> r->Err_0@ is SchemaRejected,
    {
        let mut doc = "start = ".to_owned();
        doc.append(self.name.as_str());
        doc.append("\n");
        doc.append(self.schema.as_str());
        proof {
            assert(doc@ == synthetic_doc(self.name(), self.schema()));
        }
        if !scan_schema_text(doc.as_str()) {
            return Err(
                ScenarioError::SchemaRejected {
                    message: "schema holds a byte-string literal the engine cannot process"
                        .to_owned(),
                },
            );
        }
        if !scan_payload(cbor) {
            return Err(
                ScenarioError::SchemaRejected {
                    message: "payload holds a date tag the engine cannot process".to_owned(),
                },
            );
        }
        match cddl_validate(doc.as_str(), cbor) {
            Ok(_) => Ok(()),
            Err(message) => Err(ScenarioError::SchemaRejected { message }),
        }
    }
}

} // verus!
