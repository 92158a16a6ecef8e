//! The vocabulary of intent stacks: identities, digests, plans, layers, operations and events.

use vstd::prelude::*;

use crate::digest::{sha256_hex_of, sha256_lower_hex};
use crate::json::{add_member, close_object, json_string, json_string_of, member, object, quote, quoted, Encode};
use crate::text::{all_of, byte_len, byte_length, decimal, decimal_text, every, joined, CharClass};
use crate::value::{outcome, verdict, KernelError, Value};

verus! {

/// Version of the schema that every intent contract carries.
pub const INTENT_CONTRACT_SCHEMA_VERSION: u16 = 1;
/// Version of the schema of the bounded public views.
pub const INTENT_PUBLIC_DTO_SCHEMA_VERSION: u16 = 1;
/// Prefix of the digests over canonical JSON.
pub const INTENT_CANONICAL_DIGEST_PREFIX: &'static str = "sha256:jcs-v1:";
/// Most bytes of an intent title.
pub const MAX_INTENT_TITLE_BYTES: usize = 256;
/// Most bytes of an intent statement or of an acceptance criterion.
pub const MAX_INTENT_STATEMENT_BYTES: usize = 4096;
/// Most bytes of a reason given for an operation.
pub const MAX_INTENT_REASON_BYTES: usize = 2048;
/// Most intents of one plan.
pub const MAX_INTENTS_PER_PLAN: usize = 64;
/// Most criteria of one intent.
pub const MAX_INTENT_CRITERIA: usize = 64;
/// Most direct dependencies of one intent.
pub const MAX_INTENT_DEPENDENCIES: usize = 64;

/// A message that begins with the name of the field it speaks of.
pub open spec fn labelled(label: Seq<char>, rest: Seq<char>) -> Seq<char> {
    label + rest
}

/// Fails with a message that begins with `label`.
pub(crate) fn reject_labelled(label: &str, rest: &str) -> (r: Result<(), KernelError>)
    ensures
        verdict(r) == Err::<(), Seq<char>>(labelled(label@, rest@)),
{
    Err(KernelError { message: joined(label, rest) })
}

/// The check of a stable identity: not empty, at most 128 bytes, and of ASCII letters, digits, `-`,
/// `_`, `.` and `:` alone.
pub open spec fn stable_identity_verdict(label: Seq<char>, value: Seq<char>) -> Result<
    (),
    Seq<char>,
> {
    if value.len() == 0 {
        Err(labelled(label, " cannot be empty"@))
    } else if byte_len(value) > 128 {
        Err(labelled(label, " is too long"@))
    } else if !every(CharClass::ScopedName, value) {
        Err(labelled(label, " contains unsupported characters"@))
    } else {
        Ok(())
    }
}

/// A stable identity.
pub open spec fn is_stable_identity(value: Seq<char>) -> bool {
    value.len() > 0 && byte_len(value) <= 128 && every(CharClass::ScopedName, value)
}

/// Checks a stable identity.
pub fn validate_stable_identity(label: &str, value: &str) -> (r: Result<(), KernelError>)
    ensures
        verdict(r) == stable_identity_verdict(label@, value@),
{
    if value.is_empty() {
        return reject_labelled(label, " cannot be empty");
    }
    if byte_length(value) > 128 {
        return reject_labelled(label, " is too long");
    }
    if !all_of(CharClass::ScopedName, value) {
        return reject_labelled(label, " contains unsupported characters");
    }
    Ok(())
}

/// Identity of an intent stack.
#[derive(Debug, PartialEq, Eq, PartialOrd, Ord, Hash)]
pub struct IntentStackId(String);

impl Clone for IntentStackId {
    fn clone(&self) -> (r: Self)
        ensures
            r.deep_view() == self.deep_view(),
    {
        self.duplicate()
    }
}

impl DeepView for IntentStackId {
    type V = Seq<char>;

    closed spec fn deep_view(&self) -> Seq<char> {
        self.0@
    }
}

impl IntentStackId {
    #[verifier::type_invariant]
    spec fn stable(self) -> bool {
        is_stable_identity(self.0@)
    }

    /// Makes an identity of a text that is one.
    pub fn new(value: String) -> (r: Result<Self, KernelError>)
        ensures
            outcome(r) == match stable_identity_verdict("intent stack id"@, value@) {
                Ok(_) => Ok::<Seq<char>, Seq<char>>(value@),
                Err(e) => Err(e),
            },
    {
        match validate_stable_identity("intent stack id", value.as_str()) {
            Ok(_) => Ok(IntentStackId(value)),
            Err(e) => Err(e),
        }
    }

    /// The text of the identity.
    pub fn as_str(&self) -> (r: &str)
        ensures
            r@ == self.deep_view(),
            is_stable_identity(r@),
    {
        proof {
            use_type_invariant(self);
        }
        self.0.as_str()
    }
}

impl Value for IntentStackId {
    fn same(&self, other: &Self) -> (r: bool) {
        self.0 == other.0
    }

    fn duplicate(&self) -> (r: Self) {
        proof {
            use_type_invariant(self);
        }
        IntentStackId(self.0.clone())
    }
}

impl Encode for IntentStackId {
    open spec fn json(v: Seq<char>) -> Seq<char> {
        json_string_of(v)
    }

    fn to_json(&self) -> (r: String) {
        json_string(self.0.as_str())
    }
}

/// Identity of an intent.
#[derive(Debug, PartialEq, Eq, PartialOrd, Ord, Hash)]
pub struct IntentId(String);

impl Clone for IntentId {
    fn clone(&self) -> (r: Self)
        ensures
            r.deep_view() == self.deep_view(),
    {
        self.duplicate()
    }
}

impl DeepView for IntentId {
    type V = Seq<char>;

    closed spec fn deep_view(&self) -> Seq<char> {
        self.0@
    }
}

impl IntentId {
    #[verifier::type_invariant]
    spec fn stable(self) -> bool {
        is_stable_identity(self.0@)
    }

    /// Makes an identity of a text that is one.
    pub fn new(value: String) -> (r: Result<Self, KernelError>)
        ensures
            outcome(r) == match stable_identity_verdict("intent id"@, value@) {
                Ok(_) => Ok::<Seq<char>, Seq<char>>(value@),
                Err(e) => Err(e),
            },
    {
        match validate_stable_identity("intent id", value.as_str()) {
            Ok(_) => Ok(IntentId(value)),
            Err(e) => Err(e),
        }
    }

    /// The text of the identity.
    pub fn as_str(&self) -> (r: &str)
        ensures
            r@ == self.deep_view(),
            is_stable_identity(r@),
    {
        proof {
            use_type_invariant(self);
        }
        self.0.as_str()
    }
}

impl Value for IntentId {
    fn same(&self, other: &Self) -> (r: bool) {
        self.0 == other.0
    }

    fn duplicate(&self) -> (r: Self) {
        proof {
            use_type_invariant(self);
        }
        IntentId(self.0.clone())
    }
}

impl Encode for IntentId {
    open spec fn json(v: Seq<char>) -> Seq<char> {
        json_string_of(v)
    }

    fn to_json(&self) -> (r: String) {
        json_string(self.0.as_str())
    }
}

/// Identity of an acceptance criterion.
#[derive(Debug, PartialEq, Eq, PartialOrd, Ord, Hash)]
pub struct IntentCriterionId(String);

impl Clone for IntentCriterionId {
    fn clone(&self) -> (r: Self)
        ensures
            r.deep_view() == self.deep_view(),
    {
        self.duplicate()
    }
}

impl DeepView for IntentCriterionId {
    type V = Seq<char>;

    closed spec fn deep_view(&self) -> Seq<char> {
        self.0@
    }
}

impl IntentCriterionId {
    #[verifier::type_invariant]
    spec fn stable(self) -> bool {
        is_stable_identity(self.0@)
    }

    /// Makes an identity of a text that is one.
    pub fn new(value: String) -> (r: Result<Self, KernelError>)
        ensures
            outcome(r) == match stable_identity_verdict("intent criterion id"@, value@) {
                Ok(_) => Ok::<Seq<char>, Seq<char>>(value@),
                Err(e) => Err(e),
            },
    {
        match validate_stable_identity("intent criterion id", value.as_str()) {
            Ok(_) => Ok(IntentCriterionId(value)),
            Err(e) => Err(e),
        }
    }

    /// The text of the identity.
    pub fn as_str(&self) -> (r: &str)
        ensures
            r@ == self.deep_view(),
            is_stable_identity(r@),
    {
        proof {
            use_type_invariant(self);
        }
        self.0.as_str()
    }
}

impl Value for IntentCriterionId {
    fn same(&self, other: &Self) -> (r: bool) {
        self.0 == other.0
    }

    fn duplicate(&self) -> (r: Self) {
        proof {
            use_type_invariant(self);
        }
        IntentCriterionId(self.0.clone())
    }
}

impl Encode for IntentCriterionId {
    open spec fn json(v: Seq<char>) -> Seq<char> {
        json_string_of(v)
    }

    fn to_json(&self) -> (r: String) {
        json_string(self.0.as_str())
    }
}

/// Identity of one execution of an intent.
#[derive(Debug, PartialEq, Eq, PartialOrd, Ord, Hash)]
pub struct IntentExecutionId(String);

impl Clone for IntentExecutionId {
    fn clone(&self) -> (r: Self)
        ensures
            r.deep_view() == self.deep_view(),
    {
        self.duplicate()
    }
}

impl DeepView for IntentExecutionId {
    type V = Seq<char>;

    closed spec fn deep_view(&self) -> Seq<char> {
        self.0@
    }
}

impl IntentExecutionId {
    #[verifier::type_invariant]
    spec fn stable(self) -> bool {
        is_stable_identity(self.0@)
    }

    /// Makes an identity of a text that is one.
    pub fn new(value: String) -> (r: Result<Self, KernelError>)
        ensures
            outcome(r) == match stable_identity_verdict("intent execution id"@, value@) {
                Ok(_) => Ok::<Seq<char>, Seq<char>>(value@),
                Err(e) => Err(e),
            },
    {
        match validate_stable_identity("intent execution id", value.as_str()) {
            Ok(_) => Ok(IntentExecutionId(value)),
            Err(e) => Err(e),
        }
    }

    /// The text of the identity.
    pub fn as_str(&self) -> (r: &str)
        ensures
            r@ == self.deep_view(),
            is_stable_identity(r@),
    {
        proof {
            use_type_invariant(self);
        }
        self.0.as_str()
    }
}

impl Value for IntentExecutionId {
    fn same(&self, other: &Self) -> (r: bool) {
        self.0 == other.0
    }

    fn duplicate(&self) -> (r: Self) {
        proof {
            use_type_invariant(self);
        }
        IntentExecutionId(self.0.clone())
    }
}

impl Encode for IntentExecutionId {
    open spec fn json(v: Seq<char>) -> Seq<char> {
        json_string_of(v)
    }

    fn to_json(&self) -> (r: String) {
        json_string(self.0.as_str())
    }
}

/// Identity of an artifact.
#[derive(Debug, PartialEq, Eq, PartialOrd, Ord, Hash)]
pub struct IntentArtifactId(String);

impl Clone for IntentArtifactId {
    fn clone(&self) -> (r: Self)
        ensures
            r.deep_view() == self.deep_view(),
    {
        self.duplicate()
    }
}

impl DeepView for IntentArtifactId {
    type V = Seq<char>;

    closed spec fn deep_view(&self) -> Seq<char> {
        self.0@
    }
}

impl IntentArtifactId {
    #[verifier::type_invariant]
    spec fn stable(self) -> bool {
        is_stable_identity(self.0@)
    }

    /// Makes an identity of a text that is one.
    pub fn new(value: String) -> (r: Result<Self, KernelError>)
        ensures
            outcome(r) == match stable_identity_verdict("intent artifact id"@, value@) {
                Ok(_) => Ok::<Seq<char>, Seq<char>>(value@),
                Err(e) => Err(e),
            },
    {
        match validate_stable_identity("intent artifact id", value.as_str()) {
            Ok(_) => Ok(IntentArtifactId(value)),
            Err(e) => Err(e),
        }
    }

    /// The text of the identity.
    pub fn as_str(&self) -> (r: &str)
        ensures
            r@ == self.deep_view(),
            is_stable_identity(r@),
    {
        proof {
            use_type_invariant(self);
        }
        self.0.as_str()
    }
}

impl Value for IntentArtifactId {
    fn same(&self, other: &Self) -> (r: bool) {
        self.0 == other.0
    }

    fn duplicate(&self) -> (r: Self) {
        proof {
            use_type_invariant(self);
        }
        IntentArtifactId(self.0.clone())
    }
}

impl Encode for IntentArtifactId {
    open spec fn json(v: Seq<char>) -> Seq<char> {
        json_string_of(v)
    }

    fn to_json(&self) -> (r: String) {
        json_string(self.0.as_str())
    }
}

/// Identity of an operation on an intent.
#[derive(Debug, PartialEq, Eq, PartialOrd, Ord, Hash)]
pub struct IntentOperationId(String);

impl Clone for IntentOperationId {
    fn clone(&self) -> (r: Self)
        ensures
            r.deep_view() == self.deep_view(),
    {
        self.duplicate()
    }
}

impl DeepView for IntentOperationId {
    type V = Seq<char>;

    closed spec fn deep_view(&self) -> Seq<char> {
        self.0@
    }
}

impl IntentOperationId {
    #[verifier::type_invariant]
    spec fn stable(self) -> bool {
        is_stable_identity(self.0@)
    }

    /// Makes an identity of a text that is one.
    pub fn new(value: String) -> (r: Result<Self, KernelError>)
        ensures
            outcome(r) == match stable_identity_verdict("intent operation id"@, value@) {
                Ok(_) => Ok::<Seq<char>, Seq<char>>(value@),
                Err(e) => Err(e),
            },
    {
        match validate_stable_identity("intent operation id", value.as_str()) {
            Ok(_) => Ok(IntentOperationId(value)),
            Err(e) => Err(e),
        }
    }

    /// The text of the identity.
    pub fn as_str(&self) -> (r: &str)
        ensures
            r@ == self.deep_view(),
            is_stable_identity(r@),
    {
        proof {
            use_type_invariant(self);
        }
        self.0.as_str()
    }
}

impl Value for IntentOperationId {
    fn same(&self, other: &Self) -> (r: bool) {
        self.0 == other.0
    }

    fn duplicate(&self) -> (r: Self) {
        proof {
            use_type_invariant(self);
        }
        IntentOperationId(self.0.clone())
    }
}

impl Encode for IntentOperationId {
    open spec fn json(v: Seq<char>) -> Seq<char> {
        json_string_of(v)
    }

    fn to_json(&self) -> (r: String) {
        json_string(self.0.as_str())
    }
}

/// Version of an accepted plan of an intent stack; never zero.
#[derive(Debug, Clone, Copy, PartialEq, Eq, PartialOrd, Ord, Hash)]
pub struct IntentStackVersion(u64);

impl DeepView for IntentStackVersion {
    type V = u64;

    closed spec fn deep_view(&self) -> u64 {
        self.0
    }
}

impl IntentStackVersion {
    #[verifier::type_invariant]
    spec fn nonzero(self) -> bool {
        self.0 != 0
    }

    /// Makes a version of a number other than zero.
    pub fn new(value: u64) -> (r: Result<Self, KernelError>)
        ensures
            outcome(r) == if value == 0 {
                Err::<u64, Seq<char>>("intent stack version must be non-zero"@)
            } else {
                Ok(value)
            },
    {
        if value == 0 {
            return Err(KernelError::new("intent stack version must be non-zero"));
        }
        Ok(IntentStackVersion(value))
    }

    /// The number of the version.
    pub fn get(self) -> (r: u64)
        ensures
            r == self.deep_view(),
            r != 0,
    {
        proof {
            use_type_invariant(self);
        }
        self.0
    }
}

impl Value for IntentStackVersion {
    fn same(&self, other: &Self) -> (r: bool) {
        self.0 == other.0
    }

    fn duplicate(&self) -> (r: Self) {
        *self
    }
}

impl Encode for IntentStackVersion {
    open spec fn json(v: u64) -> Seq<char> {
        decimal(v as nat)
    }

    fn to_json(&self) -> (r: String) {
        decimal_text(self.0)
    }
}

/// A digit of a hexadecimal number, in small or capital letters.
pub open spec fn is_hex_digit(c: char) -> bool {
    ('0' <= c && c <= '9') || ('a' <= c && c <= 'f') || ('A' <= c && c <= 'F')
}

/// What follows `prefix` in `value` is a SHA-256 digest of 64 hexadecimal digits.
pub open spec fn is_prefixed_digest(prefix: Seq<char>, value: Seq<char>) -> bool {
    &&& prefix.is_prefix_of(value)
    &&& is_digest_hex(value.skip(prefix.len() as int))
}

/// 64 hexadecimal digits.
pub open spec fn is_digest_hex(hex: Seq<char>) -> bool {
    hex.len() == 64 && forall|i: int| 0 <= i < hex.len() ==> is_hex_digit(#[trigger] hex[i])
}

/// The check of a digest text.
pub open spec fn digest_verdict(
    prefix: Seq<char>,
    value: Seq<char>,
    no_prefix: Seq<char>,
    no_hex: Seq<char>,
) -> Result<Seq<char>, Seq<char>> {
    if !prefix.is_prefix_of(value) {
        Err(no_prefix)
    } else if !is_digest_hex(value.skip(prefix.len() as int)) {
        Err(no_hex)
    } else {
        Ok(value)
    }
}

/// Tells whether `prefix` begins `value`, and whether a digest of 64 hexadecimal digits follows it.
fn prefixed_digest(prefix: &str, value: &str) -> (r: (bool, bool))
    ensures
        r.0 == prefix@.is_prefix_of(value@),
        r.0 ==> r.1 == is_digest_hex(value@.skip(prefix@.len() as int)),
{
    let p = crate::text::characters(prefix);
    let v = crate::text::characters(value);
    if v.len() < p.len() {
        return (false, false);
    }
    let mut i: usize = 0;
    while i < p.len()
        invariant
            i <= p.len() <= v.len(),
            p@ == prefix@,
            v@ == value@,
            forall|j: int| 0 <= j < i ==> p@[j] == v@[j],
        decreases p.len() - i,
    {
        if p[i] != v[i] {
            assert(value@.take(p@.len() as int)[i as int] != prefix@[i as int]);
            assert(prefix@ != value@.subrange(0, prefix@.len() as int));
            return (false, false);
        }
        i = i + 1;
    }
    assert(prefix@ =~= value@.subrange(0, prefix@.len() as int));
    let ghost hex = value@.skip(prefix@.len() as int);
    if v.len() - p.len() != 64 {
        return (true, false);
    }
    while i < v.len()
        invariant
            p.len() <= i <= v.len(),
            p@ == prefix@,
            v@ == value@,
            hex == value@.skip(prefix@.len() as int),
            hex.len() == 64,
            prefix@.is_prefix_of(value@),
            forall|j: int| 0 <= j < i - p.len() ==> is_hex_digit(#[trigger] hex[j]),
        decreases v.len() - i,
    {
        let c = v[i];
        assert(c == hex[i - p.len()]);
        if !(('0' <= c && c <= '9') || ('a' <= c && c <= 'f') || ('A' <= c && c <= 'F')) {
            return (true, false);
        }
        i = i + 1;
    }
    (true, true)
}

/// A prefix before 64 lowercase hexadecimal digits is a digest text.
proof fn lemma_prefixed(prefix: Seq<char>, hex: Seq<char>)
    requires
        hex.len() == 64,
        every(CharClass::LowerHex, hex),
    ensures
        is_prefixed_digest(prefix, prefix + hex),
{
    assert(prefix =~= (prefix + hex).subrange(0, prefix.len() as int));
    assert((prefix + hex).skip(prefix.len() as int) =~= hex);
    assert forall|i: int| 0 <= i < hex.len() implies is_hex_digit(#[trigger] hex[i]) by {
        assert(crate::text::in_class(CharClass::LowerHex, hex[i]));
    }
}

/// Digest over canonical JSON with a domain.
#[derive(Debug, PartialEq, Eq, PartialOrd, Ord, Hash)]
pub struct IntentDigest(String);

impl Clone for IntentDigest {
    fn clone(&self) -> (r: Self)
        ensures
            r.deep_view() == self.deep_view(),
    {
        self.duplicate()
    }
}

impl DeepView for IntentDigest {
    type V = Seq<char>;

    closed spec fn deep_view(&self) -> Seq<char> {
        self.0@
    }
}

impl IntentDigest {
    #[verifier::type_invariant]
    spec fn shaped(self) -> bool {
        is_prefixed_digest(INTENT_CANONICAL_DIGEST_PREFIX@, self.0@)
    }

    /// Makes a digest of a text that has its shape.
    pub fn new(value: String) -> (r: Result<Self, KernelError>)
        ensures
            outcome(r) == digest_verdict(
                INTENT_CANONICAL_DIGEST_PREFIX@,
                value@,
                "intent digest must use sha256:jcs-v1:"@,
                "intent digest must contain a 64-character hexadecimal sha256 digest"@,
            ),
    {
        let shape = prefixed_digest(INTENT_CANONICAL_DIGEST_PREFIX, value.as_str());
        if !shape.0 {
            return Err(KernelError::new("intent digest must use sha256:jcs-v1:"));
        }
        if !shape.1 {
            return Err(
                KernelError::new("intent digest must contain a 64-character hexadecimal sha256 digest"),
            );
        }
        Ok(IntentDigest(value))
    }

    /// The digest whose 64 digits are all zero.
    pub(crate) fn zero() -> (r: Self)
        ensures
            r.deep_view() == zero_digest_text(),
    {
        let mut hex = String::new();
        let mut i: usize = 0;
        while i < 64
            invariant
                i <= 64,
                hex@ == Seq::new(i as nat, |k: int| '0'),
            decreases 64 - i,
        {
            hex.push('0');
            i = i + 1;
            assert(hex@ =~= Seq::new(i as nat, |k: int| '0'));
        }
        proof {
            lemma_prefixed(INTENT_CANONICAL_DIGEST_PREFIX@, hex@);
        }
        IntentDigest(joined(INTENT_CANONICAL_DIGEST_PREFIX, hex.as_str()))
    }

    /// The digest of an envelope text: its bytes in UTF-8 under SHA-256.
    pub(crate) fn of_text(text: &str) -> (r: Self)
        ensures
            r.deep_view() == text_digest_of(text@),
    {
        let hex = sha256_lower_hex(text.as_bytes());
        proof {
            lemma_prefixed(INTENT_CANONICAL_DIGEST_PREFIX@, hex@);
        }
        IntentDigest(joined(INTENT_CANONICAL_DIGEST_PREFIX, hex.as_str()))
    }

    /// The text of the digest.
    pub fn as_str(&self) -> (r: &str)
        ensures
            r@ == self.deep_view(),
    {
        self.0.as_str()
    }
}

impl Value for IntentDigest {
    fn same(&self, other: &Self) -> (r: bool) {
        self.0 == other.0
    }

    fn duplicate(&self) -> (r: Self) {
        proof {
            use_type_invariant(self);
        }
        IntentDigest(self.0.clone())
    }
}

impl Encode for IntentDigest {
    open spec fn json(v: Seq<char>) -> Seq<char> {
        json_string_of(v)
    }

    fn to_json(&self) -> (r: String) {
        json_string(self.0.as_str())
    }
}

/// Digest over the exact bytes of a file or an artifact.
#[derive(Debug, PartialEq, Eq, PartialOrd, Ord, Hash)]
pub struct IntentContentDigest(String);

impl Clone for IntentContentDigest {
    fn clone(&self) -> (r: Self)
        ensures
            r.deep_view() == self.deep_view(),
    {
        self.duplicate()
    }
}

impl DeepView for IntentContentDigest {
    type V = Seq<char>;

    closed spec fn deep_view(&self) -> Seq<char> {
        self.0@
    }
}

impl IntentContentDigest {
    #[verifier::type_invariant]
    spec fn shaped(self) -> bool {
        is_prefixed_digest("sha256:"@, self.0@)
    }

    /// Makes a digest of a text that has its shape.
    pub fn new(value: String) -> (r: Result<Self, KernelError>)
        ensures
            outcome(r) == digest_verdict(
                "sha256:"@,
                value@,
                "intent content digest must use sha256:"@,
                "intent content digest must contain a 64-character hexadecimal sha256 digest"@,
            ),
    {
        let shape = prefixed_digest("sha256:", value.as_str());
        if !shape.0 {
            return Err(KernelError::new("intent content digest must use sha256:"));
        }
        if !shape.1 {
            return Err(
                KernelError::new("intent content digest must contain a 64-character hexadecimal sha256 digest"),
            );
        }
        Ok(IntentContentDigest(value))
    }

    /// The digest of `value`, byte by byte.
    pub fn from_bytes(value: &[u8]) -> (r: Self)
        ensures
            r.deep_view() == content_digest_of(value@),
    {
        let hex = sha256_lower_hex(value);
        proof {
            lemma_prefixed("sha256:"@, hex@);
        }
        IntentContentDigest(joined("sha256:", hex.as_str()))
    }

    /// The text of the digest.
    pub fn as_str(&self) -> (r: &str)
        ensures
            r@ == self.deep_view(),
    {
        self.0.as_str()
    }
}

impl Value for IntentContentDigest {
    fn same(&self, other: &Self) -> (r: bool) {
        self.0 == other.0
    }

    fn duplicate(&self) -> (r: Self) {
        proof {
            use_type_invariant(self);
        }
        IntentContentDigest(self.0.clone())
    }
}

impl Encode for IntentContentDigest {
    open spec fn json(v: Seq<char>) -> Seq<char> {
        json_string_of(v)
    }

    fn to_json(&self) -> (r: String) {
        json_string(self.0.as_str())
    }
}

/// The digest text of a byte string.
pub open spec fn content_digest_of(bytes: Seq<u8>) -> Seq<char> {
    "sha256:"@ + sha256_hex_of(bytes)
}

/// The digest text of a canonical text.
pub open spec fn text_digest_of(text: Seq<char>) -> Seq<char> {
    INTENT_CANONICAL_DIGEST_PREFIX@ + sha256_hex_of(vstd::utf8::encode_utf8(text))
}

/// The digest text with 64 zeros.
pub open spec fn zero_digest_text() -> Seq<char> {
    INTENT_CANONICAL_DIGEST_PREFIX@ + Seq::new(64, |k: int| '0')
}

/// Stable reference to one immutable intent definition version.
#[derive(Debug, Clone, PartialEq, Eq)]
pub struct IntentVersionRef {
    pub intent_id: IntentId,
    pub version: u64,
}

/// What a [`IntentVersionRef`] holds.
#[verifier::ext_equal]
pub struct IntentVersionRefView {
    pub intent_id: Seq<char>,
    pub version: u64,
}

impl DeepView for IntentVersionRef {
    type V = IntentVersionRefView;

    open spec fn deep_view(&self) -> IntentVersionRefView {
        IntentVersionRefView {
            intent_id: self.intent_id.deep_view(),
            version: self.version.deep_view(),
        }
    }
}

impl Value for IntentVersionRef {
    fn same(&self, other: &Self) -> (r: bool) {
        self.intent_id.same(&other.intent_id)
            && self.version.same(&other.version)
    }

    fn duplicate(&self) -> (r: Self) {
        IntentVersionRef {
            intent_id: self.intent_id.duplicate(),
            version: self.version.duplicate(),
        }
    }
}

impl Encode for IntentVersionRef {
    open spec fn json(v: IntentVersionRefView) -> Seq<char> {
        let t = Seq::<char>::empty();
        let t = member(t, "intent_id"@, <IntentId as Encode>::json(v.intent_id));
        let t = member(t, "version"@, <u64 as Encode>::json(v.version));
        object(t)
    }

    fn to_json(&self) -> (r: String) {
        let mut t = String::new();
        add_member(&mut t, "intent_id", &self.intent_id.to_json());
        add_member(&mut t, "version", &self.version.to_json());
        close_object(&mut t);
        t
    }
}

/// Canonical digest domain. The domain is serialized into the hashed envelope.
#[derive(Debug, Clone, Copy, PartialEq, Eq, Structural)]
pub enum IntentDigestDomain {
    Plan,
    Proposal,
    LayerCore,
    LayerManifest,
    ArtifactManifest,
    OperationPreview,
}

impl DeepView for IntentDigestDomain {
    type V = IntentDigestDomain;

    open spec fn deep_view(&self) -> IntentDigestDomain {
        *self
    }
}

impl Value for IntentDigestDomain {
    fn same(&self, other: &Self) -> (r: bool) {
        *self == *other
    }

    fn duplicate(&self) -> (r: Self) {
        *self
    }
}

/// Admission path for an intent plan.
#[derive(Debug, Clone, Copy, PartialEq, Eq, Structural)]
pub enum IntentPlanKind {
    UserDeclaredRoot,
    SuggestedDecomposition,
}

impl DeepView for IntentPlanKind {
    type V = IntentPlanKind;

    open spec fn deep_view(&self) -> IntentPlanKind {
        *self
    }
}

impl Value for IntentPlanKind {
    fn same(&self, other: &Self) -> (r: bool) {
        *self == *other
    }

    fn duplicate(&self) -> (r: Self) {
        *self
    }
}

impl Encode for IntentPlanKind {
    open spec fn json(v: IntentPlanKind) -> Seq<char> {
        quoted(match v {
            IntentPlanKind::UserDeclaredRoot => "user_declared_root"@,
            IntentPlanKind::SuggestedDecomposition => "suggested_decomposition"@,
        })
    }

    fn to_json(&self) -> (r: String) {
        quote(match *self {
            IntentPlanKind::UserDeclaredRoot => "user_declared_root",
            IntentPlanKind::SuggestedDecomposition => "suggested_decomposition",
        })
    }
}

/// Provenance for one intent definition. Provenance is descriptive, never mutation authority.
#[derive(Debug, Clone, PartialEq, Eq)]
pub enum IntentSourceV1 {
    UserTurn {
        source_turn_id: String,
    },
    AcceptedSuggestion {
        source_turn_id: String,
        proposal_digest: IntentDigest,
    },
    TrustedSource {
        source_ref: String,
        content_digest: IntentContentDigest,
    },
}

/// What a [`IntentSourceV1`] holds.
#[verifier::ext_equal]
pub enum IntentSourceV1View {
    UserTurn {
        source_turn_id: Seq<char>,
    },
    AcceptedSuggestion {
        source_turn_id: Seq<char>,
        proposal_digest: Seq<char>,
    },
    TrustedSource {
        source_ref: Seq<char>,
        content_digest: Seq<char>,
    },
}

impl DeepView for IntentSourceV1 {
    type V = IntentSourceV1View;

    open spec fn deep_view(&self) -> IntentSourceV1View {
        match self {
            IntentSourceV1::UserTurn { source_turn_id } => IntentSourceV1View::UserTurn {
                source_turn_id: source_turn_id.deep_view(),
            },
            IntentSourceV1::AcceptedSuggestion { source_turn_id, proposal_digest } => IntentSourceV1View::AcceptedSuggestion {
                source_turn_id: source_turn_id.deep_view(),
                proposal_digest: proposal_digest.deep_view(),
            },
            IntentSourceV1::TrustedSource { source_ref, content_digest } => IntentSourceV1View::TrustedSource {
                source_ref: source_ref.deep_view(),
                content_digest: content_digest.deep_view(),
            },
        }
    }
}

impl Value for IntentSourceV1 {
    fn same(&self, other: &Self) -> (r: bool) {
        match (self, other) {
            (
                IntentSourceV1::UserTurn { source_turn_id },
                IntentSourceV1::UserTurn { source_turn_id: source_turn_id2 },
            ) => source_turn_id.same(source_turn_id2),
            (
                IntentSourceV1::AcceptedSuggestion { source_turn_id, proposal_digest },
                IntentSourceV1::AcceptedSuggestion { source_turn_id: source_turn_id2, proposal_digest: proposal_digest2 },
            ) => source_turn_id.same(source_turn_id2)
                && proposal_digest.same(proposal_digest2),
            (
                IntentSourceV1::TrustedSource { source_ref, content_digest },
                IntentSourceV1::TrustedSource { source_ref: source_ref2, content_digest: content_digest2 },
            ) => source_ref.same(source_ref2)
                && content_digest.same(content_digest2),
            _ => false,
        }
    }

    fn duplicate(&self) -> (r: Self) {
        match self {
            IntentSourceV1::UserTurn { source_turn_id } => IntentSourceV1::UserTurn {
                source_turn_id: source_turn_id.duplicate(),
            },
            IntentSourceV1::AcceptedSuggestion { source_turn_id, proposal_digest } => IntentSourceV1::AcceptedSuggestion {
                source_turn_id: source_turn_id.duplicate(),
                proposal_digest: proposal_digest.duplicate(),
            },
            IntentSourceV1::TrustedSource { source_ref, content_digest } => IntentSourceV1::TrustedSource {
                source_ref: source_ref.duplicate(),
                content_digest: content_digest.duplicate(),
            },
        }
    }
}

impl Encode for IntentSourceV1 {
    open spec fn json(v: IntentSourceV1View) -> Seq<char> {
        match v {
            IntentSourceV1View::UserTurn { source_turn_id } => {
                let t = Seq::<char>::empty();
                let t = member(t, "kind"@, quoted("user_turn"@));
                let t = member(t, "source_turn_id"@, <String as Encode>::json(source_turn_id));
                object(t)
            },
            IntentSourceV1View::AcceptedSuggestion { source_turn_id, proposal_digest } => {
                let t = Seq::<char>::empty();
                let t = member(t, "kind"@, quoted("accepted_suggestion"@));
                let t = member(t, "proposal_digest"@, <IntentDigest as Encode>::json(proposal_digest));
                let t = member(t, "source_turn_id"@, <String as Encode>::json(source_turn_id));
                object(t)
            },
            IntentSourceV1View::TrustedSource { source_ref, content_digest } => {
                let t = Seq::<char>::empty();
                let t = member(t, "content_digest"@, <IntentContentDigest as Encode>::json(content_digest));
                let t = member(t, "kind"@, quoted("trusted_spec"@));
                let t = member(t, "source_ref"@, <String as Encode>::json(source_ref));
                object(t)
            },
        }
    }

    fn to_json(&self) -> (r: String) {
        match self {
            IntentSourceV1::UserTurn { source_turn_id } => {
                let mut t = String::new();
                add_member(&mut t, "kind", &quote("user_turn"));
                add_member(&mut t, "source_turn_id", &source_turn_id.to_json());
                close_object(&mut t);
                t
            },
            IntentSourceV1::AcceptedSuggestion { source_turn_id, proposal_digest } => {
                let mut t = String::new();
                add_member(&mut t, "kind", &quote("accepted_suggestion"));
                add_member(&mut t, "proposal_digest", &proposal_digest.to_json());
                add_member(&mut t, "source_turn_id", &source_turn_id.to_json());
                close_object(&mut t);
                t
            },
            IntentSourceV1::TrustedSource { source_ref, content_digest } => {
                let mut t = String::new();
                add_member(&mut t, "content_digest", &content_digest.to_json());
                add_member(&mut t, "kind", &quote("trusted_spec"));
                add_member(&mut t, "source_ref", &source_ref.to_json());
                close_object(&mut t);
                t
            },
        }
    }
}

/// Untrusted criterion proposed by a provider before runtime identity resolution.
#[derive(Debug, Clone, PartialEq, Eq)]
pub struct IntentProposalCriterionV1 {
    pub criterion_alias: String,
    pub statement: String,
    pub required: bool,
}

/// What a [`IntentProposalCriterionV1`] holds.
#[verifier::ext_equal]
pub struct IntentProposalCriterionV1View {
    pub criterion_alias: Seq<char>,
    pub statement: Seq<char>,
    pub required: bool,
}

impl DeepView for IntentProposalCriterionV1 {
    type V = IntentProposalCriterionV1View;

    open spec fn deep_view(&self) -> IntentProposalCriterionV1View {
        IntentProposalCriterionV1View {
            criterion_alias: self.criterion_alias.deep_view(),
            statement: self.statement.deep_view(),
            required: self.required.deep_view(),
        }
    }
}

impl Value for IntentProposalCriterionV1 {
    fn same(&self, other: &Self) -> (r: bool) {
        self.criterion_alias.same(&other.criterion_alias)
            && self.statement.same(&other.statement)
            && self.required.same(&other.required)
    }

    fn duplicate(&self) -> (r: Self) {
        IntentProposalCriterionV1 {
            criterion_alias: self.criterion_alias.duplicate(),
            statement: self.statement.duplicate(),
            required: self.required.duplicate(),
        }
    }
}

impl Encode for IntentProposalCriterionV1 {
    open spec fn json(v: IntentProposalCriterionV1View) -> Seq<char> {
        let t = Seq::<char>::empty();
        let t = member(t, "criterion_alias"@, <String as Encode>::json(v.criterion_alias));
        let t = member(t, "required"@, <bool as Encode>::json(v.required));
        let t = member(t, "statement"@, <String as Encode>::json(v.statement));
        object(t)
    }

    fn to_json(&self) -> (r: String) {
        let mut t = String::new();
        add_member(&mut t, "criterion_alias", &self.criterion_alias.to_json());
        add_member(&mut t, "required", &self.required.to_json());
        add_member(&mut t, "statement", &self.statement.to_json());
        close_object(&mut t);
        t
    }
}

/// Untrusted intent proposal. Aliases are display-local and never mutation authority.
#[derive(Debug, Clone, PartialEq, Eq)]
pub struct IntentProposalUnitV1 {
    pub intent_alias: String,
    pub title: String,
    pub statement: String,
    pub acceptance_criteria: Vec<IntentProposalCriterionV1>,
    pub depends_on_aliases: Vec<String>,
}

/// What a [`IntentProposalUnitV1`] holds.
#[verifier::ext_equal]
pub struct IntentProposalUnitV1View {
    pub intent_alias: Seq<char>,
    pub title: Seq<char>,
    pub statement: Seq<char>,
    pub acceptance_criteria: Seq<IntentProposalCriterionV1View>,
    pub depends_on_aliases: Seq<Seq<char>>,
}

impl DeepView for IntentProposalUnitV1 {
    type V = IntentProposalUnitV1View;

    open spec fn deep_view(&self) -> IntentProposalUnitV1View {
        IntentProposalUnitV1View {
            intent_alias: self.intent_alias.deep_view(),
            title: self.title.deep_view(),
            statement: self.statement.deep_view(),
            acceptance_criteria: self.acceptance_criteria.deep_view(),
            depends_on_aliases: self.depends_on_aliases.deep_view(),
        }
    }
}

impl Value for IntentProposalUnitV1 {
    fn same(&self, other: &Self) -> (r: bool) {
        self.intent_alias.same(&other.intent_alias)
            && self.title.same(&other.title)
            && self.statement.same(&other.statement)
            && self.acceptance_criteria.same(&other.acceptance_criteria)
            && self.depends_on_aliases.same(&other.depends_on_aliases)
    }

    fn duplicate(&self) -> (r: Self) {
        IntentProposalUnitV1 {
            intent_alias: self.intent_alias.duplicate(),
            title: self.title.duplicate(),
            statement: self.statement.duplicate(),
            acceptance_criteria: self.acceptance_criteria.duplicate(),
            depends_on_aliases: self.depends_on_aliases.duplicate(),
        }
    }
}

impl Encode for IntentProposalUnitV1 {
    open spec fn json(v: IntentProposalUnitV1View) -> Seq<char> {
        let t = Seq::<char>::empty();
        let t = member(t, "acceptance_criteria"@, <Vec<IntentProposalCriterionV1> as Encode>::json(v.acceptance_criteria));
        let t = if v.depends_on_aliases.len() == 0 { t } else { member(t, "depends_on_aliases"@, <Vec<String> as Encode>::json(v.depends_on_aliases)) };
        let t = member(t, "intent_alias"@, <String as Encode>::json(v.intent_alias));
        let t = member(t, "statement"@, <String as Encode>::json(v.statement));
        let t = member(t, "title"@, <String as Encode>::json(v.title));
        object(t)
    }

    fn to_json(&self) -> (r: String) {
        let mut t = String::new();
        add_member(&mut t, "acceptance_criteria", &self.acceptance_criteria.to_json());
        if self.depends_on_aliases.len() > 0 {
            add_member(&mut t, "depends_on_aliases", &self.depends_on_aliases.to_json());
        }
        add_member(&mut t, "intent_alias", &self.intent_alias.to_json());
        add_member(&mut t, "statement", &self.statement.to_json());
        add_member(&mut t, "title", &self.title.to_json());
        close_object(&mut t);
        t
    }
}

/// Digest-bound suggested decomposition before independent user acceptance.  It deliberately
/// contains no [`IntentId`], stack version, execution identity, or authority.
#[derive(Debug, Clone, PartialEq, Eq)]
pub struct IntentPlanProposalV1 {
    pub schema_version: u16,
    pub proposal_id: String,
    pub source_turn_id: String,
    pub intents: Vec<IntentProposalUnitV1>,
    pub proposal_digest: IntentDigest,
}

/// What a [`IntentPlanProposalV1`] holds.
#[verifier::ext_equal]
pub struct IntentPlanProposalV1View {
    pub schema_version: u16,
    pub proposal_id: Seq<char>,
    pub source_turn_id: Seq<char>,
    pub intents: Seq<IntentProposalUnitV1View>,
    pub proposal_digest: Seq<char>,
}

impl DeepView for IntentPlanProposalV1 {
    type V = IntentPlanProposalV1View;

    open spec fn deep_view(&self) -> IntentPlanProposalV1View {
        IntentPlanProposalV1View {
            schema_version: self.schema_version.deep_view(),
            proposal_id: self.proposal_id.deep_view(),
            source_turn_id: self.source_turn_id.deep_view(),
            intents: self.intents.deep_view(),
            proposal_digest: self.proposal_digest.deep_view(),
        }
    }
}

impl Value for IntentPlanProposalV1 {
    fn same(&self, other: &Self) -> (r: bool) {
        self.schema_version.same(&other.schema_version)
            && self.proposal_id.same(&other.proposal_id)
            && self.source_turn_id.same(&other.source_turn_id)
            && self.intents.same(&other.intents)
            && self.proposal_digest.same(&other.proposal_digest)
    }

    fn duplicate(&self) -> (r: Self) {
        IntentPlanProposalV1 {
            schema_version: self.schema_version.duplicate(),
            proposal_id: self.proposal_id.duplicate(),
            source_turn_id: self.source_turn_id.duplicate(),
            intents: self.intents.duplicate(),
            proposal_digest: self.proposal_digest.duplicate(),
        }
    }
}

impl IntentPlanProposalV1 {
    /// The members of the canonical text, all but `proposal_digest`.
    pub open spec fn payload_json(v: IntentPlanProposalV1View) -> Seq<char> {
        let t = Seq::<char>::empty();
        let t = member(t, "intents"@, <Vec<IntentProposalUnitV1> as Encode>::json(v.intents));
        let t = member(t, "proposal_id"@, <String as Encode>::json(v.proposal_id));
        let t = member(t, "schema_version"@, <u16 as Encode>::json(v.schema_version));
        let t = member(t, "source_turn_id"@, <String as Encode>::json(v.source_turn_id));
        object(t)
    }

    /// Writes the canonical text without `proposal_digest`.
    pub fn to_payload_json(&self) -> (r: String)
        ensures
            r@ == Self::payload_json(self.deep_view()),
    {
        let mut t = String::new();
        add_member(&mut t, "intents", &self.intents.to_json());
        add_member(&mut t, "proposal_id", &self.proposal_id.to_json());
        add_member(&mut t, "schema_version", &self.schema_version.to_json());
        add_member(&mut t, "source_turn_id", &self.source_turn_id.to_json());
        close_object(&mut t);
        t
    }
}

impl Encode for IntentPlanProposalV1 {
    open spec fn json(v: IntentPlanProposalV1View) -> Seq<char> {
        let t = Seq::<char>::empty();
        let t = member(t, "intents"@, <Vec<IntentProposalUnitV1> as Encode>::json(v.intents));
        let t = member(t, "proposal_digest"@, <IntentDigest as Encode>::json(v.proposal_digest));
        let t = member(t, "proposal_id"@, <String as Encode>::json(v.proposal_id));
        let t = member(t, "schema_version"@, <u16 as Encode>::json(v.schema_version));
        let t = member(t, "source_turn_id"@, <String as Encode>::json(v.source_turn_id));
        object(t)
    }

    fn to_json(&self) -> (r: String) {
        let mut t = String::new();
        add_member(&mut t, "intents", &self.intents.to_json());
        add_member(&mut t, "proposal_digest", &self.proposal_digest.to_json());
        add_member(&mut t, "proposal_id", &self.proposal_id.to_json());
        add_member(&mut t, "schema_version", &self.schema_version.to_json());
        add_member(&mut t, "source_turn_id", &self.source_turn_id.to_json());
        close_object(&mut t);
        t
    }
}

/// One checkable criterion attached to an immutable intent version.
#[derive(Debug, Clone, PartialEq, Eq)]
pub struct IntentAcceptanceCriterionV1 {
    pub criterion_id: IntentCriterionId,
    pub statement: String,
    pub required: bool,
}

/// What a [`IntentAcceptanceCriterionV1`] holds.
#[verifier::ext_equal]
pub struct IntentAcceptanceCriterionV1View {
    pub criterion_id: Seq<char>,
    pub statement: Seq<char>,
    pub required: bool,
}

impl DeepView for IntentAcceptanceCriterionV1 {
    type V = IntentAcceptanceCriterionV1View;

    open spec fn deep_view(&self) -> IntentAcceptanceCriterionV1View {
        IntentAcceptanceCriterionV1View {
            criterion_id: self.criterion_id.deep_view(),
            statement: self.statement.deep_view(),
            required: self.required.deep_view(),
        }
    }
}

impl Value for IntentAcceptanceCriterionV1 {
    fn same(&self, other: &Self) -> (r: bool) {
        self.criterion_id.same(&other.criterion_id)
            && self.statement.same(&other.statement)
            && self.required.same(&other.required)
    }

    fn duplicate(&self) -> (r: Self) {
        IntentAcceptanceCriterionV1 {
            criterion_id: self.criterion_id.duplicate(),
            statement: self.statement.duplicate(),
            required: self.required.duplicate(),
        }
    }
}

impl Encode for IntentAcceptanceCriterionV1 {
    open spec fn json(v: IntentAcceptanceCriterionV1View) -> Seq<char> {
        let t = Seq::<char>::empty();
        let t = member(t, "criterion_id"@, <IntentCriterionId as Encode>::json(v.criterion_id));
        let t = member(t, "required"@, <bool as Encode>::json(v.required));
        let t = member(t, "statement"@, <String as Encode>::json(v.statement));
        object(t)
    }

    fn to_json(&self) -> (r: String) {
        let mut t = String::new();
        add_member(&mut t, "criterion_id", &self.criterion_id.to_json());
        add_member(&mut t, "required", &self.required.to_json());
        add_member(&mut t, "statement", &self.statement.to_json());
        close_object(&mut t);
        t
    }
}

/// One immutable definition inside an accepted plan.
#[derive(Debug, Clone, PartialEq, Eq)]
pub struct IntentDefinitionV1 {
    pub intent_ref: IntentVersionRef,
    pub title: String,
    pub statement: String,
    pub acceptance_criteria: Vec<IntentAcceptanceCriterionV1>,
    pub depends_on: Vec<IntentId>,
    pub source: IntentSourceV1,
    pub supersedes: Option<IntentVersionRef>,
}

/// What a [`IntentDefinitionV1`] holds.
#[verifier::ext_equal]
pub struct IntentDefinitionV1View {
    pub intent_ref: IntentVersionRefView,
    pub title: Seq<char>,
    pub statement: Seq<char>,
    pub acceptance_criteria: Seq<IntentAcceptanceCriterionV1View>,
    pub depends_on: Seq<Seq<char>>,
    pub source: IntentSourceV1View,
    pub supersedes: Option<IntentVersionRefView>,
}

impl DeepView for IntentDefinitionV1 {
    type V = IntentDefinitionV1View;

    open spec fn deep_view(&self) -> IntentDefinitionV1View {
        IntentDefinitionV1View {
            intent_ref: self.intent_ref.deep_view(),
            title: self.title.deep_view(),
            statement: self.statement.deep_view(),
            acceptance_criteria: self.acceptance_criteria.deep_view(),
            depends_on: self.depends_on.deep_view(),
            source: self.source.deep_view(),
            supersedes: self.supersedes.deep_view(),
        }
    }
}

impl Value for IntentDefinitionV1 {
    fn same(&self, other: &Self) -> (r: bool) {
        self.intent_ref.same(&other.intent_ref)
            && self.title.same(&other.title)
            && self.statement.same(&other.statement)
            && self.acceptance_criteria.same(&other.acceptance_criteria)
            && self.depends_on.same(&other.depends_on)
            && self.source.same(&other.source)
            && self.supersedes.same(&other.supersedes)
    }

    fn duplicate(&self) -> (r: Self) {
        IntentDefinitionV1 {
            intent_ref: self.intent_ref.duplicate(),
            title: self.title.duplicate(),
            statement: self.statement.duplicate(),
            acceptance_criteria: self.acceptance_criteria.duplicate(),
            depends_on: self.depends_on.duplicate(),
            source: self.source.duplicate(),
            supersedes: self.supersedes.duplicate(),
        }
    }
}

impl Encode for IntentDefinitionV1 {
    open spec fn json(v: IntentDefinitionV1View) -> Seq<char> {
        let t = Seq::<char>::empty();
        let t = member(t, "acceptance_criteria"@, <Vec<IntentAcceptanceCriterionV1> as Encode>::json(v.acceptance_criteria));
        let t = if v.depends_on.len() == 0 { t } else { member(t, "depends_on"@, <Vec<IntentId> as Encode>::json(v.depends_on)) };
        let t = member(t, "intent_ref"@, <IntentVersionRef as Encode>::json(v.intent_ref));
        let t = member(t, "source"@, <IntentSourceV1 as Encode>::json(v.source));
        let t = member(t, "statement"@, <String as Encode>::json(v.statement));
        let t = if v.supersedes is None { t } else { member(t, "supersedes"@, <Option<IntentVersionRef> as Encode>::json(v.supersedes)) };
        let t = member(t, "title"@, <String as Encode>::json(v.title));
        object(t)
    }

    fn to_json(&self) -> (r: String) {
        let mut t = String::new();
        add_member(&mut t, "acceptance_criteria", &self.acceptance_criteria.to_json());
        if self.depends_on.len() > 0 {
            add_member(&mut t, "depends_on", &self.depends_on.to_json());
        }
        add_member(&mut t, "intent_ref", &self.intent_ref.to_json());
        add_member(&mut t, "source", &self.source.to_json());
        add_member(&mut t, "statement", &self.statement.to_json());
        if self.supersedes.is_some() {
            add_member(&mut t, "supersedes", &self.supersedes.to_json());
        }
        add_member(&mut t, "title", &self.title.to_json());
        close_object(&mut t);
        t
    }
}

/// Immutable, digest-bound plan admitted by the runtime.
#[derive(Debug, Clone, PartialEq, Eq)]
pub struct IntentPlanV1 {
    pub schema_version: u16,
    pub stack_id: IntentStackId,
    pub stack_version: IntentStackVersion,
    pub workspace_id: String,
    pub source_session_id: String,
    pub kind: IntentPlanKind,
    pub intents: Vec<IntentDefinitionV1>,
    pub plan_digest: IntentDigest,
}

/// What a [`IntentPlanV1`] holds.
#[verifier::ext_equal]
pub struct IntentPlanV1View {
    pub schema_version: u16,
    pub stack_id: Seq<char>,
    pub stack_version: u64,
    pub workspace_id: Seq<char>,
    pub source_session_id: Seq<char>,
    pub kind: IntentPlanKind,
    pub intents: Seq<IntentDefinitionV1View>,
    pub plan_digest: Seq<char>,
}

impl DeepView for IntentPlanV1 {
    type V = IntentPlanV1View;

    open spec fn deep_view(&self) -> IntentPlanV1View {
        IntentPlanV1View {
            schema_version: self.schema_version.deep_view(),
            stack_id: self.stack_id.deep_view(),
            stack_version: self.stack_version.deep_view(),
            workspace_id: self.workspace_id.deep_view(),
            source_session_id: self.source_session_id.deep_view(),
            kind: self.kind.deep_view(),
            intents: self.intents.deep_view(),
            plan_digest: self.plan_digest.deep_view(),
        }
    }
}

impl Value for IntentPlanV1 {
    fn same(&self, other: &Self) -> (r: bool) {
        self.schema_version.same(&other.schema_version)
            && self.stack_id.same(&other.stack_id)
            && self.stack_version.same(&other.stack_version)
            && self.workspace_id.same(&other.workspace_id)
            && self.source_session_id.same(&other.source_session_id)
            && self.kind.same(&other.kind)
            && self.intents.same(&other.intents)
            && self.plan_digest.same(&other.plan_digest)
    }

    fn duplicate(&self) -> (r: Self) {
        IntentPlanV1 {
            schema_version: self.schema_version.duplicate(),
            stack_id: self.stack_id.duplicate(),
            stack_version: self.stack_version.duplicate(),
            workspace_id: self.workspace_id.duplicate(),
            source_session_id: self.source_session_id.duplicate(),
            kind: self.kind.duplicate(),
            intents: self.intents.duplicate(),
            plan_digest: self.plan_digest.duplicate(),
        }
    }
}

impl IntentPlanV1 {
    /// The members of the canonical text, all but `plan_digest`.
    pub open spec fn payload_json(v: IntentPlanV1View) -> Seq<char> {
        let t = Seq::<char>::empty();
        let t = member(t, "intents"@, <Vec<IntentDefinitionV1> as Encode>::json(v.intents));
        let t = member(t, "kind"@, <IntentPlanKind as Encode>::json(v.kind));
        let t = member(t, "schema_version"@, <u16 as Encode>::json(v.schema_version));
        let t = member(t, "source_session_id"@, <String as Encode>::json(v.source_session_id));
        let t = member(t, "stack_id"@, <IntentStackId as Encode>::json(v.stack_id));
        let t = member(t, "stack_version"@, <IntentStackVersion as Encode>::json(v.stack_version));
        let t = member(t, "workspace_id"@, <String as Encode>::json(v.workspace_id));
        object(t)
    }

    /// Writes the canonical text without `plan_digest`.
    pub fn to_payload_json(&self) -> (r: String)
        ensures
            r@ == Self::payload_json(self.deep_view()),
    {
        let mut t = String::new();
        add_member(&mut t, "intents", &self.intents.to_json());
        add_member(&mut t, "kind", &self.kind.to_json());
        add_member(&mut t, "schema_version", &self.schema_version.to_json());
        add_member(&mut t, "source_session_id", &self.source_session_id.to_json());
        add_member(&mut t, "stack_id", &self.stack_id.to_json());
        add_member(&mut t, "stack_version", &self.stack_version.to_json());
        add_member(&mut t, "workspace_id", &self.workspace_id.to_json());
        close_object(&mut t);
        t
    }
}

impl Encode for IntentPlanV1 {
    open spec fn json(v: IntentPlanV1View) -> Seq<char> {
        let t = Seq::<char>::empty();
        let t = member(t, "intents"@, <Vec<IntentDefinitionV1> as Encode>::json(v.intents));
        let t = member(t, "kind"@, <IntentPlanKind as Encode>::json(v.kind));
        let t = member(t, "plan_digest"@, <IntentDigest as Encode>::json(v.plan_digest));
        let t = member(t, "schema_version"@, <u16 as Encode>::json(v.schema_version));
        let t = member(t, "source_session_id"@, <String as Encode>::json(v.source_session_id));
        let t = member(t, "stack_id"@, <IntentStackId as Encode>::json(v.stack_id));
        let t = member(t, "stack_version"@, <IntentStackVersion as Encode>::json(v.stack_version));
        let t = member(t, "workspace_id"@, <String as Encode>::json(v.workspace_id));
        object(t)
    }

    fn to_json(&self) -> (r: String) {
        let mut t = String::new();
        add_member(&mut t, "intents", &self.intents.to_json());
        add_member(&mut t, "kind", &self.kind.to_json());
        add_member(&mut t, "plan_digest", &self.plan_digest.to_json());
        add_member(&mut t, "schema_version", &self.schema_version.to_json());
        add_member(&mut t, "source_session_id", &self.source_session_id.to_json());
        add_member(&mut t, "stack_id", &self.stack_id.to_json());
        add_member(&mut t, "stack_version", &self.stack_version.to_json());
        add_member(&mut t, "workspace_id", &self.workspace_id.to_json());
        close_object(&mut t);
        t
    }
}

/// Whether an immutable intent definition is active in the accepted plan lineage.
#[derive(Debug, Clone, Copy, PartialEq, Eq, Structural)]
pub enum IntentDefinitionState {
    Proposed,
    Accepted,
    Superseded,
    Invalid,
}

impl DeepView for IntentDefinitionState {
    type V = IntentDefinitionState;

    open spec fn deep_view(&self) -> IntentDefinitionState {
        *self
    }
}

impl Value for IntentDefinitionState {
    fn same(&self, other: &Self) -> (r: bool) {
        *self == *other
    }

    fn duplicate(&self) -> (r: Self) {
        *self
    }
}

/// Application state is intentionally independent from definition state.
#[derive(Debug, Clone, Copy, PartialEq, Eq, Structural)]
pub enum IntentApplicationState {
    Unapplied,
    Applied,
    Dropped,
    NeedsReview,
    NeedsRebuild,
    ReadOnly,
    OutOfScope,
}

impl DeepView for IntentApplicationState {
    type V = IntentApplicationState;

    open spec fn deep_view(&self) -> IntentApplicationState {
        *self
    }
}

impl Value for IntentApplicationState {
    fn same(&self, other: &Self) -> (r: bool) {
        *self == *other
    }

    fn duplicate(&self) -> (r: Self) {
        *self
    }
}

/// Mutation authority inherited at a session/workspace boundary.
#[derive(Debug, Clone, Copy, PartialEq, Eq, Structural)]
pub enum IntentAuthorityState {
    Active,
    ReadOnlyProvenance,
    OutOfScope,
}

impl DeepView for IntentAuthorityState {
    type V = IntentAuthorityState;

    open spec fn deep_view(&self) -> IntentAuthorityState {
        *self
    }
}

impl Value for IntentAuthorityState {
    fn same(&self, other: &Self) -> (r: bool) {
        *self == *other
    }

    fn duplicate(&self) -> (r: Self) {
        *self
    }
}

/// Exact runtime execution origin for one intent binding.
#[derive(Debug, Clone, PartialEq, Eq)]
pub enum IntentExecutionOriginV1 {
    Task {
        task_id: String,
        task_plan_version: u32,
        step_id: String,
        attempt_id: Option<String>,
    },
    Chat {
        root_logical_run_id: String,
        source_turn_id: String,
        attempt_id: Option<String>,
    },
}

/// What a [`IntentExecutionOriginV1`] holds.
#[verifier::ext_equal]
pub enum IntentExecutionOriginV1View {
    Task {
        task_id: Seq<char>,
        task_plan_version: u32,
        step_id: Seq<char>,
        attempt_id: Option<Seq<char>>,
    },
    Chat {
        root_logical_run_id: Seq<char>,
        source_turn_id: Seq<char>,
        attempt_id: Option<Seq<char>>,
    },
}

impl DeepView for IntentExecutionOriginV1 {
    type V = IntentExecutionOriginV1View;

    open spec fn deep_view(&self) -> IntentExecutionOriginV1View {
        match self {
            IntentExecutionOriginV1::Task { task_id, task_plan_version, step_id, attempt_id } => IntentExecutionOriginV1View::Task {
                task_id: task_id.deep_view(),
                task_plan_version: task_plan_version.deep_view(),
                step_id: step_id.deep_view(),
                attempt_id: attempt_id.deep_view(),
            },
            IntentExecutionOriginV1::Chat { root_logical_run_id, source_turn_id, attempt_id } => IntentExecutionOriginV1View::Chat {
                root_logical_run_id: root_logical_run_id.deep_view(),
                source_turn_id: source_turn_id.deep_view(),
                attempt_id: attempt_id.deep_view(),
            },
        }
    }
}

impl Value for IntentExecutionOriginV1 {
    fn same(&self, other: &Self) -> (r: bool) {
        match (self, other) {
            (
                IntentExecutionOriginV1::Task { task_id, task_plan_version, step_id, attempt_id },
                IntentExecutionOriginV1::Task { task_id: task_id2, task_plan_version: task_plan_version2, step_id: step_id2, attempt_id: attempt_id2 },
            ) => task_id.same(task_id2)
                && task_plan_version.same(task_plan_version2)
                && step_id.same(step_id2)
                && attempt_id.same(attempt_id2),
            (
                IntentExecutionOriginV1::Chat { root_logical_run_id, source_turn_id, attempt_id },
                IntentExecutionOriginV1::Chat { root_logical_run_id: root_logical_run_id2, source_turn_id: source_turn_id2, attempt_id: attempt_id2 },
            ) => root_logical_run_id.same(root_logical_run_id2)
                && source_turn_id.same(source_turn_id2)
                && attempt_id.same(attempt_id2),
            _ => false,
        }
    }

    fn duplicate(&self) -> (r: Self) {
        match self {
            IntentExecutionOriginV1::Task { task_id, task_plan_version, step_id, attempt_id } => IntentExecutionOriginV1::Task {
                task_id: task_id.duplicate(),
                task_plan_version: task_plan_version.duplicate(),
                step_id: step_id.duplicate(),
                attempt_id: attempt_id.duplicate(),
            },
            IntentExecutionOriginV1::Chat { root_logical_run_id, source_turn_id, attempt_id } => IntentExecutionOriginV1::Chat {
                root_logical_run_id: root_logical_run_id.duplicate(),
                source_turn_id: source_turn_id.duplicate(),
                attempt_id: attempt_id.duplicate(),
            },
        }
    }
}

impl Encode for IntentExecutionOriginV1 {
    open spec fn json(v: IntentExecutionOriginV1View) -> Seq<char> {
        match v {
            IntentExecutionOriginV1View::Task { task_id, task_plan_version, step_id, attempt_id } => {
                let t = Seq::<char>::empty();
                let t = if attempt_id is None { t } else { member(t, "attempt_id"@, <Option<String> as Encode>::json(attempt_id)) };
                let t = member(t, "kind"@, quoted("task"@));
                let t = member(t, "step_id"@, <String as Encode>::json(step_id));
                let t = member(t, "task_id"@, <String as Encode>::json(task_id));
                let t = member(t, "task_plan_version"@, <u32 as Encode>::json(task_plan_version));
                object(t)
            },
            IntentExecutionOriginV1View::Chat { root_logical_run_id, source_turn_id, attempt_id } => {
                let t = Seq::<char>::empty();
                let t = if attempt_id is None { t } else { member(t, "attempt_id"@, <Option<String> as Encode>::json(attempt_id)) };
                let t = member(t, "kind"@, quoted("chat"@));
                let t = member(t, "root_logical_run_id"@, <String as Encode>::json(root_logical_run_id));
                let t = member(t, "source_turn_id"@, <String as Encode>::json(source_turn_id));
                object(t)
            },
        }
    }

    fn to_json(&self) -> (r: String) {
        match self {
            IntentExecutionOriginV1::Task { task_id, task_plan_version, step_id, attempt_id } => {
                let mut t = String::new();
                if attempt_id.is_some() {
                    add_member(&mut t, "attempt_id", &attempt_id.to_json());
                }
                add_member(&mut t, "kind", &quote("task"));
                add_member(&mut t, "step_id", &step_id.to_json());
                add_member(&mut t, "task_id", &task_id.to_json());
                add_member(&mut t, "task_plan_version", &task_plan_version.to_json());
                close_object(&mut t);
                t
            },
            IntentExecutionOriginV1::Chat { root_logical_run_id, source_turn_id, attempt_id } => {
                let mut t = String::new();
                if attempt_id.is_some() {
                    add_member(&mut t, "attempt_id", &attempt_id.to_json());
                }
                add_member(&mut t, "kind", &quote("chat"));
                add_member(&mut t, "root_logical_run_id", &root_logical_run_id.to_json());
                add_member(&mut t, "source_turn_id", &source_turn_id.to_json());
                close_object(&mut t);
                t
            },
        }
    }
}

/// Purpose of an execution binding.
#[derive(Debug, Clone, Copy, PartialEq, Eq, Structural)]
pub enum IntentExecutionBindingKind {
    Admission,
    Mutation,
    Review,
    Verification,
}

impl DeepView for IntentExecutionBindingKind {
    type V = IntentExecutionBindingKind;

    open spec fn deep_view(&self) -> IntentExecutionBindingKind {
        *self
    }
}

impl Value for IntentExecutionBindingKind {
    fn same(&self, other: &Self) -> (r: bool) {
        *self == *other
    }

    fn duplicate(&self) -> (r: Self) {
        *self
    }
}

/// Provenance link from an immutable intent version to a concrete execution origin.
#[derive(Debug, Clone, PartialEq, Eq)]
pub struct IntentExecutionBindingV1 {
    pub execution_id: IntentExecutionId,
    pub intent_ref: IntentVersionRef,
    pub origin: IntentExecutionOriginV1,
    pub binding_kind: IntentExecutionBindingKind,
    pub source_event_id: String,
}

/// What a [`IntentExecutionBindingV1`] holds.
#[verifier::ext_equal]
pub struct IntentExecutionBindingV1View {
    pub execution_id: Seq<char>,
    pub intent_ref: IntentVersionRefView,
    pub origin: IntentExecutionOriginV1View,
    pub binding_kind: IntentExecutionBindingKind,
    pub source_event_id: Seq<char>,
}

impl DeepView for IntentExecutionBindingV1 {
    type V = IntentExecutionBindingV1View;

    open spec fn deep_view(&self) -> IntentExecutionBindingV1View {
        IntentExecutionBindingV1View {
            execution_id: self.execution_id.deep_view(),
            intent_ref: self.intent_ref.deep_view(),
            origin: self.origin.deep_view(),
            binding_kind: self.binding_kind.deep_view(),
            source_event_id: self.source_event_id.deep_view(),
        }
    }
}

impl Value for IntentExecutionBindingV1 {
    fn same(&self, other: &Self) -> (r: bool) {
        self.execution_id.same(&other.execution_id)
            && self.intent_ref.same(&other.intent_ref)
            && self.origin.same(&other.origin)
            && self.binding_kind.same(&other.binding_kind)
            && self.source_event_id.same(&other.source_event_id)
    }

    fn duplicate(&self) -> (r: Self) {
        IntentExecutionBindingV1 {
            execution_id: self.execution_id.duplicate(),
            intent_ref: self.intent_ref.duplicate(),
            origin: self.origin.duplicate(),
            binding_kind: self.binding_kind.duplicate(),
            source_event_id: self.source_event_id.duplicate(),
        }
    }
}

/// Classification of an artifact associated with one intent.
#[derive(Debug, Clone, Copy, PartialEq, Eq, Structural)]
pub enum IntentArtifactKind {
    FileHunk,
    TestEvidence,
    Documentation,
    ChangeSet,
    VerificationReceipt,
    UnsupportedSideEffect,
}

impl DeepView for IntentArtifactKind {
    type V = IntentArtifactKind;

    open spec fn deep_view(&self) -> IntentArtifactKind {
        *self
    }
}

impl Value for IntentArtifactKind {
    fn same(&self, other: &Self) -> (r: bool) {
        *self == *other
    }

    fn duplicate(&self) -> (r: Self) {
        *self
    }
}

impl Encode for IntentArtifactKind {
    open spec fn json(v: IntentArtifactKind) -> Seq<char> {
        quoted(match v {
            IntentArtifactKind::FileHunk => "file_hunk"@,
            IntentArtifactKind::TestEvidence => "test_evidence"@,
            IntentArtifactKind::Documentation => "documentation"@,
            IntentArtifactKind::ChangeSet => "change_set"@,
            IntentArtifactKind::VerificationReceipt => "verification_receipt"@,
            IntentArtifactKind::UnsupportedSideEffect => "unsupported_side_effect"@,
        })
    }

    fn to_json(&self) -> (r: String) {
        quote(match *self {
            IntentArtifactKind::FileHunk => "file_hunk",
            IntentArtifactKind::TestEvidence => "test_evidence",
            IntentArtifactKind::Documentation => "documentation",
            IntentArtifactKind::ChangeSet => "change_set",
            IntentArtifactKind::VerificationReceipt => "verification_receipt",
            IntentArtifactKind::UnsupportedSideEffect => "unsupported_side_effect",
        })
    }
}

/// Conservative V1 ownership state.
#[derive(Debug, Clone, Copy, PartialEq, Eq, Structural)]
pub enum IntentArtifactOwnership {
    Exclusive,
    Shared,
    Unowned,
    Drifted,
}

impl DeepView for IntentArtifactOwnership {
    type V = IntentArtifactOwnership;

    open spec fn deep_view(&self) -> IntentArtifactOwnership {
        *self
    }
}

impl Value for IntentArtifactOwnership {
    fn same(&self, other: &Self) -> (r: bool) {
        *self == *other
    }

    fn duplicate(&self) -> (r: Self) {
        *self
    }
}

impl Encode for IntentArtifactOwnership {
    open spec fn json(v: IntentArtifactOwnership) -> Seq<char> {
        quoted(match v {
            IntentArtifactOwnership::Exclusive => "exclusive"@,
            IntentArtifactOwnership::Shared => "shared"@,
            IntentArtifactOwnership::Unowned => "unowned"@,
            IntentArtifactOwnership::Drifted => "drifted"@,
        })
    }

    fn to_json(&self) -> (r: String) {
        quote(match *self {
            IntentArtifactOwnership::Exclusive => "exclusive",
            IntentArtifactOwnership::Shared => "shared",
            IntentArtifactOwnership::Unowned => "unowned",
            IntentArtifactOwnership::Drifted => "drifted",
        })
    }
}

/// Current lifecycle of mutation evidence required for executable intent operations.
#[derive(Debug, Clone, Copy, PartialEq, Eq, Structural)]
pub enum IntentArtifactAvailability {
    Available,
    Deleted,
    Expired,
    Corrupted,
}

impl DeepView for IntentArtifactAvailability {
    type V = IntentArtifactAvailability;

    open spec fn deep_view(&self) -> IntentArtifactAvailability {
        *self
    }
}

impl Value for IntentArtifactAvailability {
    fn same(&self, other: &Self) -> (r: bool) {
        *self == *other
    }

    fn duplicate(&self) -> (r: Self) {
        *self
    }
}

impl Encode for IntentArtifactAvailability {
    open spec fn json(v: IntentArtifactAvailability) -> Seq<char> {
        quoted(match v {
            IntentArtifactAvailability::Available => "available"@,
            IntentArtifactAvailability::Deleted => "deleted"@,
            IntentArtifactAvailability::Expired => "expired"@,
            IntentArtifactAvailability::Corrupted => "corrupted"@,
        })
    }

    fn to_json(&self) -> (r: String) {
        quote(match *self {
            IntentArtifactAvailability::Available => "available",
            IntentArtifactAvailability::Deleted => "deleted",
            IntentArtifactAvailability::Expired => "expired",
            IntentArtifactAvailability::Corrupted => "corrupted",
        })
    }
}

/// Half-open UTF-8 byte range in canonical before/after file bytes.
#[derive(Debug, Clone, PartialEq, Eq)]
pub struct IntentByteRangeV1 {
    pub start: u64,
    pub end: u64,
}

/// What a [`IntentByteRangeV1`] holds.
#[verifier::ext_equal]
pub struct IntentByteRangeV1View {
    pub start: u64,
    pub end: u64,
}

impl DeepView for IntentByteRangeV1 {
    type V = IntentByteRangeV1View;

    open spec fn deep_view(&self) -> IntentByteRangeV1View {
        IntentByteRangeV1View {
            start: self.start.deep_view(),
            end: self.end.deep_view(),
        }
    }
}

impl Value for IntentByteRangeV1 {
    fn same(&self, other: &Self) -> (r: bool) {
        self.start.same(&other.start)
            && self.end.same(&other.end)
    }

    fn duplicate(&self) -> (r: Self) {
        IntentByteRangeV1 {
            start: self.start.duplicate(),
            end: self.end.duplicate(),
        }
    }
}

impl Encode for IntentByteRangeV1 {
    open spec fn json(v: IntentByteRangeV1View) -> Seq<char> {
        let t = Seq::<char>::empty();
        let t = member(t, "end"@, <u64 as Encode>::json(v.end));
        let t = member(t, "start"@, <u64 as Encode>::json(v.start));
        object(t)
    }

    fn to_json(&self) -> (r: String) {
        let mut t = String::new();
        add_member(&mut t, "end", &self.end.to_json());
        add_member(&mut t, "start", &self.start.to_json());
        close_object(&mut t);
        t
    }
}

/// Bounded, adapter-neutral artifact subject. It never carries raw patch or file content.
#[derive(Debug, Clone, PartialEq, Eq)]
pub enum BoundedIntentArtifactSubjectV1 {
    FileHunk {
        normalized_relative_path: String,
        before_file_digest: IntentContentDigest,
        after_file_digest: IntentContentDigest,
        old_range: IntentByteRangeV1,
        new_range: IntentByteRangeV1,
        old_content_digest: IntentContentDigest,
        new_content_digest: IntentContentDigest,
        layer_core_digest: IntentDigest,
    },
    Evidence {
        reference_id: String,
    },
    UnsupportedSideEffect {
        effect_kind: String,
        safe_summary: String,
    },
}

/// What a [`BoundedIntentArtifactSubjectV1`] holds.
#[verifier::ext_equal]
pub enum BoundedIntentArtifactSubjectV1View {
    FileHunk {
        normalized_relative_path: Seq<char>,
        before_file_digest: Seq<char>,
        after_file_digest: Seq<char>,
        old_range: IntentByteRangeV1View,
        new_range: IntentByteRangeV1View,
        old_content_digest: Seq<char>,
        new_content_digest: Seq<char>,
        layer_core_digest: Seq<char>,
    },
    Evidence {
        reference_id: Seq<char>,
    },
    UnsupportedSideEffect {
        effect_kind: Seq<char>,
        safe_summary: Seq<char>,
    },
}

impl DeepView for BoundedIntentArtifactSubjectV1 {
    type V = BoundedIntentArtifactSubjectV1View;

    open spec fn deep_view(&self) -> BoundedIntentArtifactSubjectV1View {
        match self {
            BoundedIntentArtifactSubjectV1::FileHunk { normalized_relative_path, before_file_digest, after_file_digest, old_range, new_range, old_content_digest, new_content_digest, layer_core_digest } => BoundedIntentArtifactSubjectV1View::FileHunk {
                normalized_relative_path: normalized_relative_path.deep_view(),
                before_file_digest: before_file_digest.deep_view(),
                after_file_digest: after_file_digest.deep_view(),
                old_range: old_range.deep_view(),
                new_range: new_range.deep_view(),
                old_content_digest: old_content_digest.deep_view(),
                new_content_digest: new_content_digest.deep_view(),
                layer_core_digest: layer_core_digest.deep_view(),
            },
            BoundedIntentArtifactSubjectV1::Evidence { reference_id } => BoundedIntentArtifactSubjectV1View::Evidence {
                reference_id: reference_id.deep_view(),
            },
            BoundedIntentArtifactSubjectV1::UnsupportedSideEffect { effect_kind, safe_summary } => BoundedIntentArtifactSubjectV1View::UnsupportedSideEffect {
                effect_kind: effect_kind.deep_view(),
                safe_summary: safe_summary.deep_view(),
            },
        }
    }
}

impl Value for BoundedIntentArtifactSubjectV1 {
    fn same(&self, other: &Self) -> (r: bool) {
        match (self, other) {
            (
                BoundedIntentArtifactSubjectV1::FileHunk { normalized_relative_path, before_file_digest, after_file_digest, old_range, new_range, old_content_digest, new_content_digest, layer_core_digest },
                BoundedIntentArtifactSubjectV1::FileHunk { normalized_relative_path: normalized_relative_path2, before_file_digest: before_file_digest2, after_file_digest: after_file_digest2, old_range: old_range2, new_range: new_range2, old_content_digest: old_content_digest2, new_content_digest: new_content_digest2, layer_core_digest: layer_core_digest2 },
            ) => normalized_relative_path.same(normalized_relative_path2)
                && before_file_digest.same(before_file_digest2)
                && after_file_digest.same(after_file_digest2)
                && old_range.same(old_range2)
                && new_range.same(new_range2)
                && old_content_digest.same(old_content_digest2)
                && new_content_digest.same(new_content_digest2)
                && layer_core_digest.same(layer_core_digest2),
            (
                BoundedIntentArtifactSubjectV1::Evidence { reference_id },
                BoundedIntentArtifactSubjectV1::Evidence { reference_id: reference_id2 },
            ) => reference_id.same(reference_id2),
            (
                BoundedIntentArtifactSubjectV1::UnsupportedSideEffect { effect_kind, safe_summary },
                BoundedIntentArtifactSubjectV1::UnsupportedSideEffect { effect_kind: effect_kind2, safe_summary: safe_summary2 },
            ) => effect_kind.same(effect_kind2)
                && safe_summary.same(safe_summary2),
            _ => false,
        }
    }

    fn duplicate(&self) -> (r: Self) {
        match self {
            BoundedIntentArtifactSubjectV1::FileHunk { normalized_relative_path, before_file_digest, after_file_digest, old_range, new_range, old_content_digest, new_content_digest, layer_core_digest } => BoundedIntentArtifactSubjectV1::FileHunk {
                normalized_relative_path: normalized_relative_path.duplicate(),
                before_file_digest: before_file_digest.duplicate(),
                after_file_digest: after_file_digest.duplicate(),
                old_range: old_range.duplicate(),
                new_range: new_range.duplicate(),
                old_content_digest: old_content_digest.duplicate(),
                new_content_digest: new_content_digest.duplicate(),
                layer_core_digest: layer_core_digest.duplicate(),
            },
            BoundedIntentArtifactSubjectV1::Evidence { reference_id } => BoundedIntentArtifactSubjectV1::Evidence {
                reference_id: reference_id.duplicate(),
            },
            BoundedIntentArtifactSubjectV1::UnsupportedSideEffect { effect_kind, safe_summary } => BoundedIntentArtifactSubjectV1::UnsupportedSideEffect {
                effect_kind: effect_kind.duplicate(),
                safe_summary: safe_summary.duplicate(),
            },
        }
    }
}

impl Encode for BoundedIntentArtifactSubjectV1 {
    open spec fn json(v: BoundedIntentArtifactSubjectV1View) -> Seq<char> {
        match v {
            BoundedIntentArtifactSubjectV1View::FileHunk { normalized_relative_path, before_file_digest, after_file_digest, old_range, new_range, old_content_digest, new_content_digest, layer_core_digest } => {
                let t = Seq::<char>::empty();
                let t = member(t, "after_file_digest"@, <IntentContentDigest as Encode>::json(after_file_digest));
                let t = member(t, "before_file_digest"@, <IntentContentDigest as Encode>::json(before_file_digest));
                let t = member(t, "kind"@, quoted("file_hunk"@));
                let t = member(t, "layer_core_digest"@, <IntentDigest as Encode>::json(layer_core_digest));
                let t = member(t, "new_content_digest"@, <IntentContentDigest as Encode>::json(new_content_digest));
                let t = member(t, "new_range"@, <IntentByteRangeV1 as Encode>::json(new_range));
                let t = member(t, "normalized_relative_path"@, <String as Encode>::json(normalized_relative_path));
                let t = member(t, "old_content_digest"@, <IntentContentDigest as Encode>::json(old_content_digest));
                let t = member(t, "old_range"@, <IntentByteRangeV1 as Encode>::json(old_range));
                object(t)
            },
            BoundedIntentArtifactSubjectV1View::Evidence { reference_id } => {
                let t = Seq::<char>::empty();
                let t = member(t, "kind"@, quoted("evidence"@));
                let t = member(t, "reference_id"@, <String as Encode>::json(reference_id));
                object(t)
            },
            BoundedIntentArtifactSubjectV1View::UnsupportedSideEffect { effect_kind, safe_summary } => {
                let t = Seq::<char>::empty();
                let t = member(t, "effect_kind"@, <String as Encode>::json(effect_kind));
                let t = member(t, "kind"@, quoted("unsupported_side_effect"@));
                let t = member(t, "safe_summary"@, <String as Encode>::json(safe_summary));
                object(t)
            },
        }
    }

    fn to_json(&self) -> (r: String) {
        match self {
            BoundedIntentArtifactSubjectV1::FileHunk { normalized_relative_path, before_file_digest, after_file_digest, old_range, new_range, old_content_digest, new_content_digest, layer_core_digest } => {
                let mut t = String::new();
                add_member(&mut t, "after_file_digest", &after_file_digest.to_json());
                add_member(&mut t, "before_file_digest", &before_file_digest.to_json());
                add_member(&mut t, "kind", &quote("file_hunk"));
                add_member(&mut t, "layer_core_digest", &layer_core_digest.to_json());
                add_member(&mut t, "new_content_digest", &new_content_digest.to_json());
                add_member(&mut t, "new_range", &new_range.to_json());
                add_member(&mut t, "normalized_relative_path", &normalized_relative_path.to_json());
                add_member(&mut t, "old_content_digest", &old_content_digest.to_json());
                add_member(&mut t, "old_range", &old_range.to_json());
                close_object(&mut t);
                t
            },
            BoundedIntentArtifactSubjectV1::Evidence { reference_id } => {
                let mut t = String::new();
                add_member(&mut t, "kind", &quote("evidence"));
                add_member(&mut t, "reference_id", &reference_id.to_json());
                close_object(&mut t);
                t
            },
            BoundedIntentArtifactSubjectV1::UnsupportedSideEffect { effect_kind, safe_summary } => {
                let mut t = String::new();
                add_member(&mut t, "effect_kind", &effect_kind.to_json());
                add_member(&mut t, "kind", &quote("unsupported_side_effect"));
                add_member(&mut t, "safe_summary", &safe_summary.to_json());
                close_object(&mut t);
                t
            },
        }
    }
}

/// Durable origin evidence for an artifact binding.
#[derive(Debug, Clone, PartialEq, Eq)]
pub struct IntentArtifactProvenanceV1 {
    pub source_event_id: String,
    pub execution_id: IntentExecutionId,
    pub mutation_batch_id: Option<String>,
    pub changeset_id: Option<String>,
    pub verification_receipt_id: Option<String>,
}

/// What a [`IntentArtifactProvenanceV1`] holds.
#[verifier::ext_equal]
pub struct IntentArtifactProvenanceV1View {
    pub source_event_id: Seq<char>,
    pub execution_id: Seq<char>,
    pub mutation_batch_id: Option<Seq<char>>,
    pub changeset_id: Option<Seq<char>>,
    pub verification_receipt_id: Option<Seq<char>>,
}

impl DeepView for IntentArtifactProvenanceV1 {
    type V = IntentArtifactProvenanceV1View;

    open spec fn deep_view(&self) -> IntentArtifactProvenanceV1View {
        IntentArtifactProvenanceV1View {
            source_event_id: self.source_event_id.deep_view(),
            execution_id: self.execution_id.deep_view(),
            mutation_batch_id: self.mutation_batch_id.deep_view(),
            changeset_id: self.changeset_id.deep_view(),
            verification_receipt_id: self.verification_receipt_id.deep_view(),
        }
    }
}

impl Value for IntentArtifactProvenanceV1 {
    fn same(&self, other: &Self) -> (r: bool) {
        self.source_event_id.same(&other.source_event_id)
            && self.execution_id.same(&other.execution_id)
            && self.mutation_batch_id.same(&other.mutation_batch_id)
            && self.changeset_id.same(&other.changeset_id)
            && self.verification_receipt_id.same(&other.verification_receipt_id)
    }

    fn duplicate(&self) -> (r: Self) {
        IntentArtifactProvenanceV1 {
            source_event_id: self.source_event_id.duplicate(),
            execution_id: self.execution_id.duplicate(),
            mutation_batch_id: self.mutation_batch_id.duplicate(),
            changeset_id: self.changeset_id.duplicate(),
            verification_receipt_id: self.verification_receipt_id.duplicate(),
        }
    }
}

impl Encode for IntentArtifactProvenanceV1 {
    open spec fn json(v: IntentArtifactProvenanceV1View) -> Seq<char> {
        let t = Seq::<char>::empty();
        let t = if v.changeset_id is None { t } else { member(t, "changeset_id"@, <Option<String> as Encode>::json(v.changeset_id)) };
        let t = member(t, "execution_id"@, <IntentExecutionId as Encode>::json(v.execution_id));
        let t = if v.mutation_batch_id is None { t } else { member(t, "mutation_batch_id"@, <Option<String> as Encode>::json(v.mutation_batch_id)) };
        let t = member(t, "source_event_id"@, <String as Encode>::json(v.source_event_id));
        let t = if v.verification_receipt_id is None { t } else { member(t, "verification_receipt_id"@, <Option<String> as Encode>::json(v.verification_receipt_id)) };
        object(t)
    }

    fn to_json(&self) -> (r: String) {
        let mut t = String::new();
        if self.changeset_id.is_some() {
            add_member(&mut t, "changeset_id", &self.changeset_id.to_json());
        }
        add_member(&mut t, "execution_id", &self.execution_id.to_json());
        if self.mutation_batch_id.is_some() {
            add_member(&mut t, "mutation_batch_id", &self.mutation_batch_id.to_json());
        }
        add_member(&mut t, "source_event_id", &self.source_event_id.to_json());
        if self.verification_receipt_id.is_some() {
            add_member(&mut t, "verification_receipt_id", &self.verification_receipt_id.to_json());
        }
        close_object(&mut t);
        t
    }
}

/// One bounded artifact binding. Raw forward/reverse patch bytes live in the artifact store.
#[derive(Debug, Clone, PartialEq, Eq)]
pub struct IntentArtifactBindingV1 {
    pub artifact_id: IntentArtifactId,
    pub artifact_kind: IntentArtifactKind,
    pub subject: BoundedIntentArtifactSubjectV1,
    pub ownership: IntentArtifactOwnership,
    pub availability: IntentArtifactAvailability,
    pub before_digest: Option<IntentContentDigest>,
    pub after_digest: IntentContentDigest,
    pub provenance: IntentArtifactProvenanceV1,
}

/// What a [`IntentArtifactBindingV1`] holds.
#[verifier::ext_equal]
pub struct IntentArtifactBindingV1View {
    pub artifact_id: Seq<char>,
    pub artifact_kind: IntentArtifactKind,
    pub subject: BoundedIntentArtifactSubjectV1View,
    pub ownership: IntentArtifactOwnership,
    pub availability: IntentArtifactAvailability,
    pub before_digest: Option<Seq<char>>,
    pub after_digest: Seq<char>,
    pub provenance: IntentArtifactProvenanceV1View,
}

impl DeepView for IntentArtifactBindingV1 {
    type V = IntentArtifactBindingV1View;

    open spec fn deep_view(&self) -> IntentArtifactBindingV1View {
        IntentArtifactBindingV1View {
            artifact_id: self.artifact_id.deep_view(),
            artifact_kind: self.artifact_kind.deep_view(),
            subject: self.subject.deep_view(),
            ownership: self.ownership.deep_view(),
            availability: self.availability.deep_view(),
            before_digest: self.before_digest.deep_view(),
            after_digest: self.after_digest.deep_view(),
            provenance: self.provenance.deep_view(),
        }
    }
}

impl Value for IntentArtifactBindingV1 {
    fn same(&self, other: &Self) -> (r: bool) {
        self.artifact_id.same(&other.artifact_id)
            && self.artifact_kind.same(&other.artifact_kind)
            && self.subject.same(&other.subject)
            && self.ownership.same(&other.ownership)
            && self.availability.same(&other.availability)
            && self.before_digest.same(&other.before_digest)
            && self.after_digest.same(&other.after_digest)
            && self.provenance.same(&other.provenance)
    }

    fn duplicate(&self) -> (r: Self) {
        IntentArtifactBindingV1 {
            artifact_id: self.artifact_id.duplicate(),
            artifact_kind: self.artifact_kind.duplicate(),
            subject: self.subject.duplicate(),
            ownership: self.ownership.duplicate(),
            availability: self.availability.duplicate(),
            before_digest: self.before_digest.duplicate(),
            after_digest: self.after_digest.duplicate(),
            provenance: self.provenance.duplicate(),
        }
    }
}

impl Encode for IntentArtifactBindingV1 {
    open spec fn json(v: IntentArtifactBindingV1View) -> Seq<char> {
        let t = Seq::<char>::empty();
        let t = member(t, "after_digest"@, <IntentContentDigest as Encode>::json(v.after_digest));
        let t = member(t, "artifact_id"@, <IntentArtifactId as Encode>::json(v.artifact_id));
        let t = member(t, "artifact_kind"@, <IntentArtifactKind as Encode>::json(v.artifact_kind));
        let t = member(t, "availability"@, <IntentArtifactAvailability as Encode>::json(v.availability));
        let t = if v.before_digest is None { t } else { member(t, "before_digest"@, <Option<IntentContentDigest> as Encode>::json(v.before_digest)) };
        let t = member(t, "ownership"@, <IntentArtifactOwnership as Encode>::json(v.ownership));
        let t = member(t, "provenance"@, <IntentArtifactProvenanceV1 as Encode>::json(v.provenance));
        let t = member(t, "subject"@, <BoundedIntentArtifactSubjectV1 as Encode>::json(v.subject));
        object(t)
    }

    fn to_json(&self) -> (r: String) {
        let mut t = String::new();
        add_member(&mut t, "after_digest", &self.after_digest.to_json());
        add_member(&mut t, "artifact_id", &self.artifact_id.to_json());
        add_member(&mut t, "artifact_kind", &self.artifact_kind.to_json());
        add_member(&mut t, "availability", &self.availability.to_json());
        if self.before_digest.is_some() {
            add_member(&mut t, "before_digest", &self.before_digest.to_json());
        }
        add_member(&mut t, "ownership", &self.ownership.to_json());
        add_member(&mut t, "provenance", &self.provenance.to_json());
        add_member(&mut t, "subject", &self.subject.to_json());
        close_object(&mut t);
        t
    }
}

/// Cycle-free core of an executable intent layer.  The core is digested before hunk identities are
/// derived. Artifact bindings may reference this digest, while the final layer manifest references
/// the resulting artifact manifest in one direction only.
#[derive(Debug, Clone, PartialEq, Eq)]
pub struct IntentLayerCoreV1 {
    pub schema_version: u16,
    pub intent_ref: IntentVersionRef,
    pub execution_id: IntentExecutionId,
    pub execution_origin: IntentExecutionOriginV1,
    pub base_snapshot_id: String,
    pub result_snapshot_id: String,
    pub changeset_ids: Vec<String>,
    pub operation_ids: Vec<IntentOperationId>,
    pub forward_patch_artifact_id: String,
    pub reverse_patch_artifact_id: String,
    pub core_digest: IntentDigest,
}

/// What a [`IntentLayerCoreV1`] holds.
#[verifier::ext_equal]
pub struct IntentLayerCoreV1View {
    pub schema_version: u16,
    pub intent_ref: IntentVersionRefView,
    pub execution_id: Seq<char>,
    pub execution_origin: IntentExecutionOriginV1View,
    pub base_snapshot_id: Seq<char>,
    pub result_snapshot_id: Seq<char>,
    pub changeset_ids: Seq<Seq<char>>,
    pub operation_ids: Seq<Seq<char>>,
    pub forward_patch_artifact_id: Seq<char>,
    pub reverse_patch_artifact_id: Seq<char>,
    pub core_digest: Seq<char>,
}

impl DeepView for IntentLayerCoreV1 {
    type V = IntentLayerCoreV1View;

    open spec fn deep_view(&self) -> IntentLayerCoreV1View {
        IntentLayerCoreV1View {
            schema_version: self.schema_version.deep_view(),
            intent_ref: self.intent_ref.deep_view(),
            execution_id: self.execution_id.deep_view(),
            execution_origin: self.execution_origin.deep_view(),
            base_snapshot_id: self.base_snapshot_id.deep_view(),
            result_snapshot_id: self.result_snapshot_id.deep_view(),
            changeset_ids: self.changeset_ids.deep_view(),
            operation_ids: self.operation_ids.deep_view(),
            forward_patch_artifact_id: self.forward_patch_artifact_id.deep_view(),
            reverse_patch_artifact_id: self.reverse_patch_artifact_id.deep_view(),
            core_digest: self.core_digest.deep_view(),
        }
    }
}

impl Value for IntentLayerCoreV1 {
    fn same(&self, other: &Self) -> (r: bool) {
        self.schema_version.same(&other.schema_version)
            && self.intent_ref.same(&other.intent_ref)
            && self.execution_id.same(&other.execution_id)
            && self.execution_origin.same(&other.execution_origin)
            && self.base_snapshot_id.same(&other.base_snapshot_id)
            && self.result_snapshot_id.same(&other.result_snapshot_id)
            && self.changeset_ids.same(&other.changeset_ids)
            && self.operation_ids.same(&other.operation_ids)
            && self.forward_patch_artifact_id.same(&other.forward_patch_artifact_id)
            && self.reverse_patch_artifact_id.same(&other.reverse_patch_artifact_id)
            && self.core_digest.same(&other.core_digest)
    }

    fn duplicate(&self) -> (r: Self) {
        IntentLayerCoreV1 {
            schema_version: self.schema_version.duplicate(),
            intent_ref: self.intent_ref.duplicate(),
            execution_id: self.execution_id.duplicate(),
            execution_origin: self.execution_origin.duplicate(),
            base_snapshot_id: self.base_snapshot_id.duplicate(),
            result_snapshot_id: self.result_snapshot_id.duplicate(),
            changeset_ids: self.changeset_ids.duplicate(),
            operation_ids: self.operation_ids.duplicate(),
            forward_patch_artifact_id: self.forward_patch_artifact_id.duplicate(),
            reverse_patch_artifact_id: self.reverse_patch_artifact_id.duplicate(),
            core_digest: self.core_digest.duplicate(),
        }
    }
}

impl IntentLayerCoreV1 {
    /// The members of the canonical text, all but `core_digest`.
    pub open spec fn payload_json(v: IntentLayerCoreV1View) -> Seq<char> {
        let t = Seq::<char>::empty();
        let t = member(t, "base_snapshot_id"@, <String as Encode>::json(v.base_snapshot_id));
        let t = member(t, "changeset_ids"@, <Vec<String> as Encode>::json(v.changeset_ids));
        let t = member(t, "execution_id"@, <IntentExecutionId as Encode>::json(v.execution_id));
        let t = member(t, "execution_origin"@, <IntentExecutionOriginV1 as Encode>::json(v.execution_origin));
        let t = member(t, "forward_patch_artifact_id"@, <String as Encode>::json(v.forward_patch_artifact_id));
        let t = member(t, "intent_ref"@, <IntentVersionRef as Encode>::json(v.intent_ref));
        let t = member(t, "operation_ids"@, <Vec<IntentOperationId> as Encode>::json(v.operation_ids));
        let t = member(t, "result_snapshot_id"@, <String as Encode>::json(v.result_snapshot_id));
        let t = member(t, "reverse_patch_artifact_id"@, <String as Encode>::json(v.reverse_patch_artifact_id));
        let t = member(t, "schema_version"@, <u16 as Encode>::json(v.schema_version));
        object(t)
    }

    /// Writes the canonical text without `core_digest`.
    pub fn to_payload_json(&self) -> (r: String)
        ensures
            r@ == Self::payload_json(self.deep_view()),
    {
        let mut t = String::new();
        add_member(&mut t, "base_snapshot_id", &self.base_snapshot_id.to_json());
        add_member(&mut t, "changeset_ids", &self.changeset_ids.to_json());
        add_member(&mut t, "execution_id", &self.execution_id.to_json());
        add_member(&mut t, "execution_origin", &self.execution_origin.to_json());
        add_member(&mut t, "forward_patch_artifact_id", &self.forward_patch_artifact_id.to_json());
        add_member(&mut t, "intent_ref", &self.intent_ref.to_json());
        add_member(&mut t, "operation_ids", &self.operation_ids.to_json());
        add_member(&mut t, "result_snapshot_id", &self.result_snapshot_id.to_json());
        add_member(&mut t, "reverse_patch_artifact_id", &self.reverse_patch_artifact_id.to_json());
        add_member(&mut t, "schema_version", &self.schema_version.to_json());
        close_object(&mut t);
        t
    }
}

impl Encode for IntentLayerCoreV1 {
    open spec fn json(v: IntentLayerCoreV1View) -> Seq<char> {
        let t = Seq::<char>::empty();
        let t = member(t, "base_snapshot_id"@, <String as Encode>::json(v.base_snapshot_id));
        let t = member(t, "changeset_ids"@, <Vec<String> as Encode>::json(v.changeset_ids));
        let t = member(t, "core_digest"@, <IntentDigest as Encode>::json(v.core_digest));
        let t = member(t, "execution_id"@, <IntentExecutionId as Encode>::json(v.execution_id));
        let t = member(t, "execution_origin"@, <IntentExecutionOriginV1 as Encode>::json(v.execution_origin));
        let t = member(t, "forward_patch_artifact_id"@, <String as Encode>::json(v.forward_patch_artifact_id));
        let t = member(t, "intent_ref"@, <IntentVersionRef as Encode>::json(v.intent_ref));
        let t = member(t, "operation_ids"@, <Vec<IntentOperationId> as Encode>::json(v.operation_ids));
        let t = member(t, "result_snapshot_id"@, <String as Encode>::json(v.result_snapshot_id));
        let t = member(t, "reverse_patch_artifact_id"@, <String as Encode>::json(v.reverse_patch_artifact_id));
        let t = member(t, "schema_version"@, <u16 as Encode>::json(v.schema_version));
        object(t)
    }

    fn to_json(&self) -> (r: String) {
        let mut t = String::new();
        add_member(&mut t, "base_snapshot_id", &self.base_snapshot_id.to_json());
        add_member(&mut t, "changeset_ids", &self.changeset_ids.to_json());
        add_member(&mut t, "core_digest", &self.core_digest.to_json());
        add_member(&mut t, "execution_id", &self.execution_id.to_json());
        add_member(&mut t, "execution_origin", &self.execution_origin.to_json());
        add_member(&mut t, "forward_patch_artifact_id", &self.forward_patch_artifact_id.to_json());
        add_member(&mut t, "intent_ref", &self.intent_ref.to_json());
        add_member(&mut t, "operation_ids", &self.operation_ids.to_json());
        add_member(&mut t, "result_snapshot_id", &self.result_snapshot_id.to_json());
        add_member(&mut t, "reverse_patch_artifact_id", &self.reverse_patch_artifact_id.to_json());
        add_member(&mut t, "schema_version", &self.schema_version.to_json());
        close_object(&mut t);
        t
    }
}

/// Exact ordered artifact set derived from one already-digested layer core.
#[derive(Debug, Clone, PartialEq, Eq)]
pub struct IntentArtifactManifestV1 {
    pub schema_version: u16,
    pub intent_ref: IntentVersionRef,
    pub execution_id: IntentExecutionId,
    pub layer_core_digest: IntentDigest,
    pub artifacts: Vec<IntentArtifactBindingV1>,
    pub manifest_digest: IntentDigest,
}

/// What a [`IntentArtifactManifestV1`] holds.
#[verifier::ext_equal]
pub struct IntentArtifactManifestV1View {
    pub schema_version: u16,
    pub intent_ref: IntentVersionRefView,
    pub execution_id: Seq<char>,
    pub layer_core_digest: Seq<char>,
    pub artifacts: Seq<IntentArtifactBindingV1View>,
    pub manifest_digest: Seq<char>,
}

impl DeepView for IntentArtifactManifestV1 {
    type V = IntentArtifactManifestV1View;

    open spec fn deep_view(&self) -> IntentArtifactManifestV1View {
        IntentArtifactManifestV1View {
            schema_version: self.schema_version.deep_view(),
            intent_ref: self.intent_ref.deep_view(),
            execution_id: self.execution_id.deep_view(),
            layer_core_digest: self.layer_core_digest.deep_view(),
            artifacts: self.artifacts.deep_view(),
            manifest_digest: self.manifest_digest.deep_view(),
        }
    }
}

impl Value for IntentArtifactManifestV1 {
    fn same(&self, other: &Self) -> (r: bool) {
        self.schema_version.same(&other.schema_version)
            && self.intent_ref.same(&other.intent_ref)
            && self.execution_id.same(&other.execution_id)
            && self.layer_core_digest.same(&other.layer_core_digest)
            && self.artifacts.same(&other.artifacts)
            && self.manifest_digest.same(&other.manifest_digest)
    }

    fn duplicate(&self) -> (r: Self) {
        IntentArtifactManifestV1 {
            schema_version: self.schema_version.duplicate(),
            intent_ref: self.intent_ref.duplicate(),
            execution_id: self.execution_id.duplicate(),
            layer_core_digest: self.layer_core_digest.duplicate(),
            artifacts: self.artifacts.duplicate(),
            manifest_digest: self.manifest_digest.duplicate(),
        }
    }
}

impl IntentArtifactManifestV1 {
    /// The members of the canonical text, all but `manifest_digest`.
    pub open spec fn payload_json(v: IntentArtifactManifestV1View) -> Seq<char> {
        let t = Seq::<char>::empty();
        let t = member(t, "artifacts"@, <Vec<IntentArtifactBindingV1> as Encode>::json(v.artifacts));
        let t = member(t, "execution_id"@, <IntentExecutionId as Encode>::json(v.execution_id));
        let t = member(t, "intent_ref"@, <IntentVersionRef as Encode>::json(v.intent_ref));
        let t = member(t, "layer_core_digest"@, <IntentDigest as Encode>::json(v.layer_core_digest));
        let t = member(t, "schema_version"@, <u16 as Encode>::json(v.schema_version));
        object(t)
    }

    /// Writes the canonical text without `manifest_digest`.
    pub fn to_payload_json(&self) -> (r: String)
        ensures
            r@ == Self::payload_json(self.deep_view()),
    {
        let mut t = String::new();
        add_member(&mut t, "artifacts", &self.artifacts.to_json());
        add_member(&mut t, "execution_id", &self.execution_id.to_json());
        add_member(&mut t, "intent_ref", &self.intent_ref.to_json());
        add_member(&mut t, "layer_core_digest", &self.layer_core_digest.to_json());
        add_member(&mut t, "schema_version", &self.schema_version.to_json());
        close_object(&mut t);
        t
    }
}

impl Encode for IntentArtifactManifestV1 {
    open spec fn json(v: IntentArtifactManifestV1View) -> Seq<char> {
        let t = Seq::<char>::empty();
        let t = member(t, "artifacts"@, <Vec<IntentArtifactBindingV1> as Encode>::json(v.artifacts));
        let t = member(t, "execution_id"@, <IntentExecutionId as Encode>::json(v.execution_id));
        let t = member(t, "intent_ref"@, <IntentVersionRef as Encode>::json(v.intent_ref));
        let t = member(t, "layer_core_digest"@, <IntentDigest as Encode>::json(v.layer_core_digest));
        let t = member(t, "manifest_digest"@, <IntentDigest as Encode>::json(v.manifest_digest));
        let t = member(t, "schema_version"@, <u16 as Encode>::json(v.schema_version));
        object(t)
    }

    fn to_json(&self) -> (r: String) {
        let mut t = String::new();
        add_member(&mut t, "artifacts", &self.artifacts.to_json());
        add_member(&mut t, "execution_id", &self.execution_id.to_json());
        add_member(&mut t, "intent_ref", &self.intent_ref.to_json());
        add_member(&mut t, "layer_core_digest", &self.layer_core_digest.to_json());
        add_member(&mut t, "manifest_digest", &self.manifest_digest.to_json());
        add_member(&mut t, "schema_version", &self.schema_version.to_json());
        close_object(&mut t);
        t
    }
}

/// Content-addressed final layer manifest with a cycle-free artifact reference.
#[derive(Debug, Clone, PartialEq, Eq)]
pub struct IntentLayerManifestV1 {
    pub schema_version: u16,
    pub core: IntentLayerCoreV1,
    pub artifact_manifest_id: String,
    pub artifact_manifest_digest: IntentDigest,
    pub manifest_digest: IntentDigest,
}

/// What a [`IntentLayerManifestV1`] holds.
#[verifier::ext_equal]
pub struct IntentLayerManifestV1View {
    pub schema_version: u16,
    pub core: IntentLayerCoreV1View,
    pub artifact_manifest_id: Seq<char>,
    pub artifact_manifest_digest: Seq<char>,
    pub manifest_digest: Seq<char>,
}

impl DeepView for IntentLayerManifestV1 {
    type V = IntentLayerManifestV1View;

    open spec fn deep_view(&self) -> IntentLayerManifestV1View {
        IntentLayerManifestV1View {
            schema_version: self.schema_version.deep_view(),
            core: self.core.deep_view(),
            artifact_manifest_id: self.artifact_manifest_id.deep_view(),
            artifact_manifest_digest: self.artifact_manifest_digest.deep_view(),
            manifest_digest: self.manifest_digest.deep_view(),
        }
    }
}

impl Value for IntentLayerManifestV1 {
    fn same(&self, other: &Self) -> (r: bool) {
        self.schema_version.same(&other.schema_version)
            && self.core.same(&other.core)
            && self.artifact_manifest_id.same(&other.artifact_manifest_id)
            && self.artifact_manifest_digest.same(&other.artifact_manifest_digest)
            && self.manifest_digest.same(&other.manifest_digest)
    }

    fn duplicate(&self) -> (r: Self) {
        IntentLayerManifestV1 {
            schema_version: self.schema_version.duplicate(),
            core: self.core.duplicate(),
            artifact_manifest_id: self.artifact_manifest_id.duplicate(),
            artifact_manifest_digest: self.artifact_manifest_digest.duplicate(),
            manifest_digest: self.manifest_digest.duplicate(),
        }
    }
}

impl IntentLayerManifestV1 {
    /// The members of the canonical text, all but `manifest_digest`.
    pub open spec fn payload_json(v: IntentLayerManifestV1View) -> Seq<char> {
        let t = Seq::<char>::empty();
        let t = member(t, "artifact_manifest_digest"@, <IntentDigest as Encode>::json(v.artifact_manifest_digest));
        let t = member(t, "artifact_manifest_id"@, <String as Encode>::json(v.artifact_manifest_id));
        let t = member(t, "core"@, <IntentLayerCoreV1 as Encode>::json(v.core));
        let t = member(t, "schema_version"@, <u16 as Encode>::json(v.schema_version));
        object(t)
    }

    /// Writes the canonical text without `manifest_digest`.
    pub fn to_payload_json(&self) -> (r: String)
        ensures
            r@ == Self::payload_json(self.deep_view()),
    {
        let mut t = String::new();
        add_member(&mut t, "artifact_manifest_digest", &self.artifact_manifest_digest.to_json());
        add_member(&mut t, "artifact_manifest_id", &self.artifact_manifest_id.to_json());
        add_member(&mut t, "core", &self.core.to_json());
        add_member(&mut t, "schema_version", &self.schema_version.to_json());
        close_object(&mut t);
        t
    }
}

impl Encode for IntentLayerManifestV1 {
    open spec fn json(v: IntentLayerManifestV1View) -> Seq<char> {
        let t = Seq::<char>::empty();
        let t = member(t, "artifact_manifest_digest"@, <IntentDigest as Encode>::json(v.artifact_manifest_digest));
        let t = member(t, "artifact_manifest_id"@, <String as Encode>::json(v.artifact_manifest_id));
        let t = member(t, "core"@, <IntentLayerCoreV1 as Encode>::json(v.core));
        let t = member(t, "manifest_digest"@, <IntentDigest as Encode>::json(v.manifest_digest));
        let t = member(t, "schema_version"@, <u16 as Encode>::json(v.schema_version));
        object(t)
    }

    fn to_json(&self) -> (r: String) {
        let mut t = String::new();
        add_member(&mut t, "artifact_manifest_digest", &self.artifact_manifest_digest.to_json());
        add_member(&mut t, "artifact_manifest_id", &self.artifact_manifest_id.to_json());
        add_member(&mut t, "core", &self.core.to_json());
        add_member(&mut t, "manifest_digest", &self.manifest_digest.to_json());
        add_member(&mut t, "schema_version", &self.schema_version.to_json());
        close_object(&mut t);
        t
    }
}

/// Strength of a criterion-to-verification link.
#[derive(Debug, Clone, Copy, PartialEq, Eq, Structural)]
pub enum IntentCriterionEvidenceLevel {
    Advisory,
    SystemVerified,
}

impl DeepView for IntentCriterionEvidenceLevel {
    type V = IntentCriterionEvidenceLevel;

    open spec fn deep_view(&self) -> IntentCriterionEvidenceLevel {
        *self
    }
}

impl Value for IntentCriterionEvidenceLevel {
    fn same(&self, other: &Self) -> (r: bool) {
        *self == *other
    }

    fn duplicate(&self) -> (r: Self) {
        *self
    }
}

/// Bounded verification link. System verification still requires live policy validation.
#[derive(Debug, Clone, PartialEq, Eq)]
pub struct IntentCriterionEvidenceV1 {
    pub intent_ref: IntentVersionRef,
    pub criterion_id: IntentCriterionId,
    pub level: IntentCriterionEvidenceLevel,
    pub receipt_id: String,
    pub parent_snapshot_id: String,
    pub verification_policy_digest: IntentDigest,
    pub changeset_ids: Vec<String>,
    pub source_event_id: String,
}

/// What a [`IntentCriterionEvidenceV1`] holds.
#[verifier::ext_equal]
pub struct IntentCriterionEvidenceV1View {
    pub intent_ref: IntentVersionRefView,
    pub criterion_id: Seq<char>,
    pub level: IntentCriterionEvidenceLevel,
    pub receipt_id: Seq<char>,
    pub parent_snapshot_id: Seq<char>,
    pub verification_policy_digest: Seq<char>,
    pub changeset_ids: Seq<Seq<char>>,
    pub source_event_id: Seq<char>,
}

impl DeepView for IntentCriterionEvidenceV1 {
    type V = IntentCriterionEvidenceV1View;

    open spec fn deep_view(&self) -> IntentCriterionEvidenceV1View {
        IntentCriterionEvidenceV1View {
            intent_ref: self.intent_ref.deep_view(),
            criterion_id: self.criterion_id.deep_view(),
            level: self.level.deep_view(),
            receipt_id: self.receipt_id.deep_view(),
            parent_snapshot_id: self.parent_snapshot_id.deep_view(),
            verification_policy_digest: self.verification_policy_digest.deep_view(),
            changeset_ids: self.changeset_ids.deep_view(),
            source_event_id: self.source_event_id.deep_view(),
        }
    }
}

impl Value for IntentCriterionEvidenceV1 {
    fn same(&self, other: &Self) -> (r: bool) {
        self.intent_ref.same(&other.intent_ref)
            && self.criterion_id.same(&other.criterion_id)
            && self.level.same(&other.level)
            && self.receipt_id.same(&other.receipt_id)
            && self.parent_snapshot_id.same(&other.parent_snapshot_id)
            && self.verification_policy_digest.same(&other.verification_policy_digest)
            && self.changeset_ids.same(&other.changeset_ids)
            && self.source_event_id.same(&other.source_event_id)
    }

    fn duplicate(&self) -> (r: Self) {
        IntentCriterionEvidenceV1 {
            intent_ref: self.intent_ref.duplicate(),
            criterion_id: self.criterion_id.duplicate(),
            level: self.level.duplicate(),
            receipt_id: self.receipt_id.duplicate(),
            parent_snapshot_id: self.parent_snapshot_id.duplicate(),
            verification_policy_digest: self.verification_policy_digest.duplicate(),
            changeset_ids: self.changeset_ids.duplicate(),
            source_event_id: self.source_event_id.duplicate(),
        }
    }
}

/// Operation kinds covered by the V1 adapter contract.
#[derive(Debug, Clone, Copy, PartialEq, Eq, Structural)]
pub enum IntentOperationKind {
    Drop,
    ReviseImpactPreview,
    ReplaceImpactPreview,
    Adopt,
}

impl DeepView for IntentOperationKind {
    type V = IntentOperationKind;

    open spec fn deep_view(&self) -> IntentOperationKind {
        *self
    }
}

impl Value for IntentOperationKind {
    fn same(&self, other: &Self) -> (r: bool) {
        *self == *other
    }

    fn duplicate(&self) -> (r: Self) {
        *self
    }
}

impl Encode for IntentOperationKind {
    open spec fn json(v: IntentOperationKind) -> Seq<char> {
        quoted(match v {
            IntentOperationKind::Drop => "drop"@,
            IntentOperationKind::ReviseImpactPreview => "revise_impact_preview"@,
            IntentOperationKind::ReplaceImpactPreview => "replace_impact_preview"@,
            IntentOperationKind::Adopt => "adopt"@,
        })
    }

    fn to_json(&self) -> (r: String) {
        quote(match *self {
            IntentOperationKind::Drop => "drop",
            IntentOperationKind::ReviseImpactPreview => "revise_impact_preview",
            IntentOperationKind::ReplaceImpactPreview => "replace_impact_preview",
            IntentOperationKind::Adopt => "adopt",
        })
    }
}

/// Terminal result of a durable intent operation.
#[derive(Debug, Clone, Copy, PartialEq, Eq, Structural)]
pub enum IntentOperationResolution {
    Committed,
    Rejected,
    Cancelled,
    Conflicted,
    PartiallyApplied,
    Interrupted,
}

impl DeepView for IntentOperationResolution {
    type V = IntentOperationResolution;

    open spec fn deep_view(&self) -> IntentOperationResolution {
        *self
    }
}

impl Value for IntentOperationResolution {
    fn same(&self, other: &Self) -> (r: bool) {
        *self == *other
    }

    fn duplicate(&self) -> (r: Self) {
        *self
    }
}

/// Locked typed error taxonomy for Intent Stack V1 operations.
#[derive(Debug, Clone, Copy, PartialEq, Eq, Structural)]
pub enum IntentOperationErrorCode {
    UnsupportedSchema,
    IntentHistoryUnavailable,
    UnknownIntent,
    UnknownOperation,
    StaleIntentVersion,
    StaleStackVersion,
    InvalidDependencyGraph,
    TargetNotLeaf,
    SharedArtifact,
    UnownedArtifact,
    DriftedArtifact,
    ArtifactUnavailable,
    ArtifactDigestMismatch,
    UnsupportedArtifact,
    UnsupportedSideEffect,
    MissingExecutionLineage,
    MissingParentMutationEvidence,
    MissingCurrentVerificationEvidence,
    PreviewDigestMismatch,
    WorkspaceRevisionMismatch,
    PermissionDenied,
    ApprovalAuthorityUnavailable,
    WorkspaceLeaseUnavailable,
    WorkspaceOutOfScope,
    OperationStateConflict,
    IntentStateConflict,
    PartialApplication,
    ReconciliationRequired,
}

impl DeepView for IntentOperationErrorCode {
    type V = IntentOperationErrorCode;

    open spec fn deep_view(&self) -> IntentOperationErrorCode {
        *self
    }
}

impl Value for IntentOperationErrorCode {
    fn same(&self, other: &Self) -> (r: bool) {
        *self == *other
    }

    fn duplicate(&self) -> (r: Self) {
        *self
    }
}

impl Encode for IntentOperationErrorCode {
    open spec fn json(v: IntentOperationErrorCode) -> Seq<char> {
        quoted(match v {
            IntentOperationErrorCode::UnsupportedSchema => "unsupported_schema"@,
            IntentOperationErrorCode::IntentHistoryUnavailable => "intent_history_unavailable"@,
            IntentOperationErrorCode::UnknownIntent => "unknown_intent"@,
            IntentOperationErrorCode::UnknownOperation => "unknown_operation"@,
            IntentOperationErrorCode::StaleIntentVersion => "stale_intent_version"@,
            IntentOperationErrorCode::StaleStackVersion => "stale_stack_version"@,
            IntentOperationErrorCode::InvalidDependencyGraph => "invalid_dependency_graph"@,
            IntentOperationErrorCode::TargetNotLeaf => "target_not_leaf"@,
            IntentOperationErrorCode::SharedArtifact => "shared_artifact"@,
            IntentOperationErrorCode::UnownedArtifact => "unowned_artifact"@,
            IntentOperationErrorCode::DriftedArtifact => "drifted_artifact"@,
            IntentOperationErrorCode::ArtifactUnavailable => "artifact_unavailable"@,
            IntentOperationErrorCode::ArtifactDigestMismatch => "artifact_digest_mismatch"@,
            IntentOperationErrorCode::UnsupportedArtifact => "unsupported_artifact"@,
            IntentOperationErrorCode::UnsupportedSideEffect => "unsupported_side_effect"@,
            IntentOperationErrorCode::MissingExecutionLineage => "missing_execution_lineage"@,
            IntentOperationErrorCode::MissingParentMutationEvidence => "missing_parent_mutation_evidence"@,
            IntentOperationErrorCode::MissingCurrentVerificationEvidence => "missing_current_verification_evidence"@,
            IntentOperationErrorCode::PreviewDigestMismatch => "preview_digest_mismatch"@,
            IntentOperationErrorCode::WorkspaceRevisionMismatch => "workspace_revision_mismatch"@,
            IntentOperationErrorCode::PermissionDenied => "permission_denied"@,
            IntentOperationErrorCode::ApprovalAuthorityUnavailable => "approval_authority_unavailable"@,
            IntentOperationErrorCode::WorkspaceLeaseUnavailable => "workspace_lease_unavailable"@,
            IntentOperationErrorCode::WorkspaceOutOfScope => "workspace_out_of_scope"@,
            IntentOperationErrorCode::OperationStateConflict => "operation_state_conflict"@,
            IntentOperationErrorCode::IntentStateConflict => "intent_state_conflict"@,
            IntentOperationErrorCode::PartialApplication => "partial_application"@,
            IntentOperationErrorCode::ReconciliationRequired => "reconciliation_required"@,
        })
    }

    fn to_json(&self) -> (r: String) {
        quote(match *self {
            IntentOperationErrorCode::UnsupportedSchema => "unsupported_schema",
            IntentOperationErrorCode::IntentHistoryUnavailable => "intent_history_unavailable",
            IntentOperationErrorCode::UnknownIntent => "unknown_intent",
            IntentOperationErrorCode::UnknownOperation => "unknown_operation",
            IntentOperationErrorCode::StaleIntentVersion => "stale_intent_version",
            IntentOperationErrorCode::StaleStackVersion => "stale_stack_version",
            IntentOperationErrorCode::InvalidDependencyGraph => "invalid_dependency_graph",
            IntentOperationErrorCode::TargetNotLeaf => "target_not_leaf",
            IntentOperationErrorCode::SharedArtifact => "shared_artifact",
            IntentOperationErrorCode::UnownedArtifact => "unowned_artifact",
            IntentOperationErrorCode::DriftedArtifact => "drifted_artifact",
            IntentOperationErrorCode::ArtifactUnavailable => "artifact_unavailable",
            IntentOperationErrorCode::ArtifactDigestMismatch => "artifact_digest_mismatch",
            IntentOperationErrorCode::UnsupportedArtifact => "unsupported_artifact",
            IntentOperationErrorCode::UnsupportedSideEffect => "unsupported_side_effect",
            IntentOperationErrorCode::MissingExecutionLineage => "missing_execution_lineage",
            IntentOperationErrorCode::MissingParentMutationEvidence => "missing_parent_mutation_evidence",
            IntentOperationErrorCode::MissingCurrentVerificationEvidence => "missing_current_verification_evidence",
            IntentOperationErrorCode::PreviewDigestMismatch => "preview_digest_mismatch",
            IntentOperationErrorCode::WorkspaceRevisionMismatch => "workspace_revision_mismatch",
            IntentOperationErrorCode::PermissionDenied => "permission_denied",
            IntentOperationErrorCode::ApprovalAuthorityUnavailable => "approval_authority_unavailable",
            IntentOperationErrorCode::WorkspaceLeaseUnavailable => "workspace_lease_unavailable",
            IntentOperationErrorCode::WorkspaceOutOfScope => "workspace_out_of_scope",
            IntentOperationErrorCode::OperationStateConflict => "operation_state_conflict",
            IntentOperationErrorCode::IntentStateConflict => "intent_state_conflict",
            IntentOperationErrorCode::PartialApplication => "partial_application",
            IntentOperationErrorCode::ReconciliationRequired => "reconciliation_required",
        })
    }
}

/// File action displayed in an exact intent operation preview.
#[derive(Debug, Clone, Copy, PartialEq, Eq, Structural)]
pub enum IntentOperationFileAction {
    Create,
    Update,
    Delete,
}

impl DeepView for IntentOperationFileAction {
    type V = IntentOperationFileAction;

    open spec fn deep_view(&self) -> IntentOperationFileAction {
        *self
    }
}

impl Value for IntentOperationFileAction {
    fn same(&self, other: &Self) -> (r: bool) {
        *self == *other
    }

    fn duplicate(&self) -> (r: Self) {
        *self
    }
}

impl Encode for IntentOperationFileAction {
    open spec fn json(v: IntentOperationFileAction) -> Seq<char> {
        quoted(match v {
            IntentOperationFileAction::Create => "create"@,
            IntentOperationFileAction::Update => "update"@,
            IntentOperationFileAction::Delete => "delete"@,
        })
    }

    fn to_json(&self) -> (r: String) {
        quote(match *self {
            IntentOperationFileAction::Create => "create",
            IntentOperationFileAction::Update => "update",
            IntentOperationFileAction::Delete => "delete",
        })
    }
}

/// Bounded file effect in an exact preview. No raw bytes or absolute paths are exposed.
#[derive(Debug, Clone, PartialEq, Eq)]
pub struct IntentOperationFileSummaryV1 {
    pub normalized_relative_path: String,
    pub action: IntentOperationFileAction,
    pub artifact_ids: Vec<IntentArtifactId>,
}

/// What a [`IntentOperationFileSummaryV1`] holds.
#[verifier::ext_equal]
pub struct IntentOperationFileSummaryV1View {
    pub normalized_relative_path: Seq<char>,
    pub action: IntentOperationFileAction,
    pub artifact_ids: Seq<Seq<char>>,
}

impl DeepView for IntentOperationFileSummaryV1 {
    type V = IntentOperationFileSummaryV1View;

    open spec fn deep_view(&self) -> IntentOperationFileSummaryV1View {
        IntentOperationFileSummaryV1View {
            normalized_relative_path: self.normalized_relative_path.deep_view(),
            action: self.action.deep_view(),
            artifact_ids: self.artifact_ids.deep_view(),
        }
    }
}

impl Value for IntentOperationFileSummaryV1 {
    fn same(&self, other: &Self) -> (r: bool) {
        self.normalized_relative_path.same(&other.normalized_relative_path)
            && self.action.same(&other.action)
            && self.artifact_ids.same(&other.artifact_ids)
    }

    fn duplicate(&self) -> (r: Self) {
        IntentOperationFileSummaryV1 {
            normalized_relative_path: self.normalized_relative_path.duplicate(),
            action: self.action.duplicate(),
            artifact_ids: self.artifact_ids.duplicate(),
        }
    }
}

impl Encode for IntentOperationFileSummaryV1 {
    open spec fn json(v: IntentOperationFileSummaryV1View) -> Seq<char> {
        let t = Seq::<char>::empty();
        let t = member(t, "action"@, <IntentOperationFileAction as Encode>::json(v.action));
        let t = member(t, "artifact_ids"@, <Vec<IntentArtifactId> as Encode>::json(v.artifact_ids));
        let t = member(t, "normalized_relative_path"@, <String as Encode>::json(v.normalized_relative_path));
        object(t)
    }

    fn to_json(&self) -> (r: String) {
        let mut t = String::new();
        add_member(&mut t, "action", &self.action.to_json());
        add_member(&mut t, "artifact_ids", &self.artifact_ids.to_json());
        add_member(&mut t, "normalized_relative_path", &self.normalized_relative_path.to_json());
        close_object(&mut t);
        t
    }
}

/// Verification transition caused by an intent operation.
#[derive(Debug, Clone, Copy, PartialEq, Eq, Structural)]
pub enum IntentVerificationImpact {
    BecomesStale,
    RerunRequired,
}

impl DeepView for IntentVerificationImpact {
    type V = IntentVerificationImpact;

    open spec fn deep_view(&self) -> IntentVerificationImpact {
        *self
    }
}

impl Value for IntentVerificationImpact {
    fn same(&self, other: &Self) -> (r: bool) {
        *self == *other
    }

    fn duplicate(&self) -> (r: Self) {
        *self
    }
}

impl Encode for IntentVerificationImpact {
    open spec fn json(v: IntentVerificationImpact) -> Seq<char> {
        quoted(match v {
            IntentVerificationImpact::BecomesStale => "becomes_stale"@,
            IntentVerificationImpact::RerunRequired => "rerun_required"@,
        })
    }

    fn to_json(&self) -> (r: String) {
        quote(match *self {
            IntentVerificationImpact::BecomesStale => "becomes_stale",
            IntentVerificationImpact::RerunRequired => "rerun_required",
        })
    }
}

/// Bounded verification effect in an exact preview.
#[derive(Debug, Clone, PartialEq, Eq)]
pub struct IntentVerificationImpactV1 {
    pub receipt_id: String,
    pub impact: IntentVerificationImpact,
}

/// What a [`IntentVerificationImpactV1`] holds.
#[verifier::ext_equal]
pub struct IntentVerificationImpactV1View {
    pub receipt_id: Seq<char>,
    pub impact: IntentVerificationImpact,
}

impl DeepView for IntentVerificationImpactV1 {
    type V = IntentVerificationImpactV1View;

    open spec fn deep_view(&self) -> IntentVerificationImpactV1View {
        IntentVerificationImpactV1View {
            receipt_id: self.receipt_id.deep_view(),
            impact: self.impact.deep_view(),
        }
    }
}

impl Value for IntentVerificationImpactV1 {
    fn same(&self, other: &Self) -> (r: bool) {
        self.receipt_id.same(&other.receipt_id)
            && self.impact.same(&other.impact)
    }

    fn duplicate(&self) -> (r: Self) {
        IntentVerificationImpactV1 {
            receipt_id: self.receipt_id.duplicate(),
            impact: self.impact.duplicate(),
        }
    }
}

impl Encode for IntentVerificationImpactV1 {
    open spec fn json(v: IntentVerificationImpactV1View) -> Seq<char> {
        let t = Seq::<char>::empty();
        let t = member(t, "impact"@, <IntentVerificationImpact as Encode>::json(v.impact));
        let t = member(t, "receipt_id"@, <String as Encode>::json(v.receipt_id));
        object(t)
    }

    fn to_json(&self) -> (r: String) {
        let mut t = String::new();
        add_member(&mut t, "impact", &self.impact.to_json());
        add_member(&mut t, "receipt_id", &self.receipt_id.to_json());
        close_object(&mut t);
        t
    }
}

/// Exact, digest-bound preview shared by TUI and typed adapters.
#[derive(Debug, Clone, PartialEq, Eq)]
pub struct IntentOperationPreviewV1 {
    pub schema_version: u16,
    pub operation_id: IntentOperationId,
    pub operation_kind: IntentOperationKind,
    pub stack_id: IntentStackId,
    pub stack_version: IntentStackVersion,
    pub target_intents: Vec<IntentVersionRef>,
    pub target_is_leaf: bool,
    pub workspace_revision: u64,
    pub expires_at_ms: Option<u64>,
    pub file_effects: Vec<IntentOperationFileSummaryV1>,
    pub retained_intents: Vec<IntentVersionRef>,
    pub verification_impacts: Vec<IntentVerificationImpactV1>,
    pub conflicts: Vec<IntentConflictV1>,
    pub preview_digest: IntentDigest,
}

/// What a [`IntentOperationPreviewV1`] holds.
#[verifier::ext_equal]
pub struct IntentOperationPreviewV1View {
    pub schema_version: u16,
    pub operation_id: Seq<char>,
    pub operation_kind: IntentOperationKind,
    pub stack_id: Seq<char>,
    pub stack_version: u64,
    pub target_intents: Seq<IntentVersionRefView>,
    pub target_is_leaf: bool,
    pub workspace_revision: u64,
    pub expires_at_ms: Option<u64>,
    pub file_effects: Seq<IntentOperationFileSummaryV1View>,
    pub retained_intents: Seq<IntentVersionRefView>,
    pub verification_impacts: Seq<IntentVerificationImpactV1View>,
    pub conflicts: Seq<IntentConflictV1View>,
    pub preview_digest: Seq<char>,
}

impl DeepView for IntentOperationPreviewV1 {
    type V = IntentOperationPreviewV1View;

    open spec fn deep_view(&self) -> IntentOperationPreviewV1View {
        IntentOperationPreviewV1View {
            schema_version: self.schema_version.deep_view(),
            operation_id: self.operation_id.deep_view(),
            operation_kind: self.operation_kind.deep_view(),
            stack_id: self.stack_id.deep_view(),
            stack_version: self.stack_version.deep_view(),
            target_intents: self.target_intents.deep_view(),
            target_is_leaf: self.target_is_leaf.deep_view(),
            workspace_revision: self.workspace_revision.deep_view(),
            expires_at_ms: self.expires_at_ms.deep_view(),
            file_effects: self.file_effects.deep_view(),
            retained_intents: self.retained_intents.deep_view(),
            verification_impacts: self.verification_impacts.deep_view(),
            conflicts: self.conflicts.deep_view(),
            preview_digest: self.preview_digest.deep_view(),
        }
    }
}

impl Value for IntentOperationPreviewV1 {
    fn same(&self, other: &Self) -> (r: bool) {
        self.schema_version.same(&other.schema_version)
            && self.operation_id.same(&other.operation_id)
            && self.operation_kind.same(&other.operation_kind)
            && self.stack_id.same(&other.stack_id)
            && self.stack_version.same(&other.stack_version)
            && self.target_intents.same(&other.target_intents)
            && self.target_is_leaf.same(&other.target_is_leaf)
            && self.workspace_revision.same(&other.workspace_revision)
            && self.expires_at_ms.same(&other.expires_at_ms)
            && self.file_effects.same(&other.file_effects)
            && self.retained_intents.same(&other.retained_intents)
            && self.verification_impacts.same(&other.verification_impacts)
            && self.conflicts.same(&other.conflicts)
            && self.preview_digest.same(&other.preview_digest)
    }

    fn duplicate(&self) -> (r: Self) {
        IntentOperationPreviewV1 {
            schema_version: self.schema_version.duplicate(),
            operation_id: self.operation_id.duplicate(),
            operation_kind: self.operation_kind.duplicate(),
            stack_id: self.stack_id.duplicate(),
            stack_version: self.stack_version.duplicate(),
            target_intents: self.target_intents.duplicate(),
            target_is_leaf: self.target_is_leaf.duplicate(),
            workspace_revision: self.workspace_revision.duplicate(),
            expires_at_ms: self.expires_at_ms.duplicate(),
            file_effects: self.file_effects.duplicate(),
            retained_intents: self.retained_intents.duplicate(),
            verification_impacts: self.verification_impacts.duplicate(),
            conflicts: self.conflicts.duplicate(),
            preview_digest: self.preview_digest.duplicate(),
        }
    }
}

impl IntentOperationPreviewV1 {
    /// The members of the canonical text, all but `preview_digest`.
    pub open spec fn payload_json(v: IntentOperationPreviewV1View) -> Seq<char> {
        let t = Seq::<char>::empty();
        let t = member(t, "conflicts"@, <Vec<IntentConflictV1> as Encode>::json(v.conflicts));
        let t = if v.expires_at_ms is None { t } else { member(t, "expires_at_ms"@, <Option<u64> as Encode>::json(v.expires_at_ms)) };
        let t = member(t, "file_effects"@, <Vec<IntentOperationFileSummaryV1> as Encode>::json(v.file_effects));
        let t = member(t, "operation_id"@, <IntentOperationId as Encode>::json(v.operation_id));
        let t = member(t, "operation_kind"@, <IntentOperationKind as Encode>::json(v.operation_kind));
        let t = member(t, "retained_intents"@, <Vec<IntentVersionRef> as Encode>::json(v.retained_intents));
        let t = member(t, "schema_version"@, <u16 as Encode>::json(v.schema_version));
        let t = member(t, "stack_id"@, <IntentStackId as Encode>::json(v.stack_id));
        let t = member(t, "stack_version"@, <IntentStackVersion as Encode>::json(v.stack_version));
        let t = member(t, "target_intents"@, <Vec<IntentVersionRef> as Encode>::json(v.target_intents));
        let t = member(t, "target_is_leaf"@, <bool as Encode>::json(v.target_is_leaf));
        let t = member(t, "verification_impacts"@, <Vec<IntentVerificationImpactV1> as Encode>::json(v.verification_impacts));
        let t = member(t, "workspace_revision"@, <u64 as Encode>::json(v.workspace_revision));
        object(t)
    }

    /// Writes the canonical text without `preview_digest`.
    pub fn to_payload_json(&self) -> (r: String)
        ensures
            r@ == Self::payload_json(self.deep_view()),
    {
        let mut t = String::new();
        add_member(&mut t, "conflicts", &self.conflicts.to_json());
        if self.expires_at_ms.is_some() {
            add_member(&mut t, "expires_at_ms", &self.expires_at_ms.to_json());
        }
        add_member(&mut t, "file_effects", &self.file_effects.to_json());
        add_member(&mut t, "operation_id", &self.operation_id.to_json());
        add_member(&mut t, "operation_kind", &self.operation_kind.to_json());
        add_member(&mut t, "retained_intents", &self.retained_intents.to_json());
        add_member(&mut t, "schema_version", &self.schema_version.to_json());
        add_member(&mut t, "stack_id", &self.stack_id.to_json());
        add_member(&mut t, "stack_version", &self.stack_version.to_json());
        add_member(&mut t, "target_intents", &self.target_intents.to_json());
        add_member(&mut t, "target_is_leaf", &self.target_is_leaf.to_json());
        add_member(&mut t, "verification_impacts", &self.verification_impacts.to_json());
        add_member(&mut t, "workspace_revision", &self.workspace_revision.to_json());
        close_object(&mut t);
        t
    }
}

impl Encode for IntentOperationPreviewV1 {
    open spec fn json(v: IntentOperationPreviewV1View) -> Seq<char> {
        let t = Seq::<char>::empty();
        let t = member(t, "conflicts"@, <Vec<IntentConflictV1> as Encode>::json(v.conflicts));
        let t = if v.expires_at_ms is None { t } else { member(t, "expires_at_ms"@, <Option<u64> as Encode>::json(v.expires_at_ms)) };
        let t = member(t, "file_effects"@, <Vec<IntentOperationFileSummaryV1> as Encode>::json(v.file_effects));
        let t = member(t, "operation_id"@, <IntentOperationId as Encode>::json(v.operation_id));
        let t = member(t, "operation_kind"@, <IntentOperationKind as Encode>::json(v.operation_kind));
        let t = member(t, "preview_digest"@, <IntentDigest as Encode>::json(v.preview_digest));
        let t = member(t, "retained_intents"@, <Vec<IntentVersionRef> as Encode>::json(v.retained_intents));
        let t = member(t, "schema_version"@, <u16 as Encode>::json(v.schema_version));
        let t = member(t, "stack_id"@, <IntentStackId as Encode>::json(v.stack_id));
        let t = member(t, "stack_version"@, <IntentStackVersion as Encode>::json(v.stack_version));
        let t = member(t, "target_intents"@, <Vec<IntentVersionRef> as Encode>::json(v.target_intents));
        let t = member(t, "target_is_leaf"@, <bool as Encode>::json(v.target_is_leaf));
        let t = member(t, "verification_impacts"@, <Vec<IntentVerificationImpactV1> as Encode>::json(v.verification_impacts));
        let t = member(t, "workspace_revision"@, <u64 as Encode>::json(v.workspace_revision));
        object(t)
    }

    fn to_json(&self) -> (r: String) {
        let mut t = String::new();
        add_member(&mut t, "conflicts", &self.conflicts.to_json());
        if self.expires_at_ms.is_some() {
            add_member(&mut t, "expires_at_ms", &self.expires_at_ms.to_json());
        }
        add_member(&mut t, "file_effects", &self.file_effects.to_json());
        add_member(&mut t, "operation_id", &self.operation_id.to_json());
        add_member(&mut t, "operation_kind", &self.operation_kind.to_json());
        add_member(&mut t, "preview_digest", &self.preview_digest.to_json());
        add_member(&mut t, "retained_intents", &self.retained_intents.to_json());
        add_member(&mut t, "schema_version", &self.schema_version.to_json());
        add_member(&mut t, "stack_id", &self.stack_id.to_json());
        add_member(&mut t, "stack_version", &self.stack_version.to_json());
        add_member(&mut t, "target_intents", &self.target_intents.to_json());
        add_member(&mut t, "target_is_leaf", &self.target_is_leaf.to_json());
        add_member(&mut t, "verification_impacts", &self.verification_impacts.to_json());
        add_member(&mut t, "workspace_revision", &self.workspace_revision.to_json());
        close_object(&mut t);
        t
    }
}

/// Structured fail-closed conflict retained by domain events and bounded DTOs.
#[derive(Debug, Clone, PartialEq, Eq)]
pub struct IntentConflictV1 {
    pub code: IntentOperationErrorCode,
    pub intent_ref: Option<IntentVersionRef>,
    pub artifact_id: Option<IntentArtifactId>,
    pub safe_reason: String,
}

/// What a [`IntentConflictV1`] holds.
#[verifier::ext_equal]
pub struct IntentConflictV1View {
    pub code: IntentOperationErrorCode,
    pub intent_ref: Option<IntentVersionRefView>,
    pub artifact_id: Option<Seq<char>>,
    pub safe_reason: Seq<char>,
}

impl DeepView for IntentConflictV1 {
    type V = IntentConflictV1View;

    open spec fn deep_view(&self) -> IntentConflictV1View {
        IntentConflictV1View {
            code: self.code.deep_view(),
            intent_ref: self.intent_ref.deep_view(),
            artifact_id: self.artifact_id.deep_view(),
            safe_reason: self.safe_reason.deep_view(),
        }
    }
}

impl Value for IntentConflictV1 {
    fn same(&self, other: &Self) -> (r: bool) {
        self.code.same(&other.code)
            && self.intent_ref.same(&other.intent_ref)
            && self.artifact_id.same(&other.artifact_id)
            && self.safe_reason.same(&other.safe_reason)
    }

    fn duplicate(&self) -> (r: Self) {
        IntentConflictV1 {
            code: self.code.duplicate(),
            intent_ref: self.intent_ref.duplicate(),
            artifact_id: self.artifact_id.duplicate(),
            safe_reason: self.safe_reason.duplicate(),
        }
    }
}

impl Encode for IntentConflictV1 {
    open spec fn json(v: IntentConflictV1View) -> Seq<char> {
        let t = Seq::<char>::empty();
        let t = if v.artifact_id is None { t } else { member(t, "artifact_id"@, <Option<IntentArtifactId> as Encode>::json(v.artifact_id)) };
        let t = member(t, "code"@, <IntentOperationErrorCode as Encode>::json(v.code));
        let t = if v.intent_ref is None { t } else { member(t, "intent_ref"@, <Option<IntentVersionRef> as Encode>::json(v.intent_ref)) };
        let t = member(t, "safe_reason"@, <String as Encode>::json(v.safe_reason));
        object(t)
    }

    fn to_json(&self) -> (r: String) {
        let mut t = String::new();
        if self.artifact_id.is_some() {
            add_member(&mut t, "artifact_id", &self.artifact_id.to_json());
        }
        add_member(&mut t, "code", &self.code.to_json());
        if self.intent_ref.is_some() {
            add_member(&mut t, "intent_ref", &self.intent_ref.to_json());
        }
        add_member(&mut t, "safe_reason", &self.safe_reason.to_json());
        close_object(&mut t);
        t
    }
}

/// How an accepted plan was authorized independently from proposal generation.
#[derive(Debug, Clone, Copy, PartialEq, Eq, Structural)]
pub enum IntentAcceptanceKind {
    UserDeclaredRootAdmission,
    ExplicitUserConfirmation,
    ContentBoundSpecDecision,
}

impl DeepView for IntentAcceptanceKind {
    type V = IntentAcceptanceKind;

    open spec fn deep_view(&self) -> IntentAcceptanceKind {
        *self
    }
}

impl Value for IntentAcceptanceKind {
    fn same(&self, other: &Self) -> (r: bool) {
        *self == *other
    }

    fn duplicate(&self) -> (r: Self) {
        *self
    }
}

/// Exact TaskPlan version admitted in the same durable writer batch as an IntentPlan.
#[derive(Debug, Clone, PartialEq, Eq)]
pub struct IntentTaskPlanBindingV1 {
    pub task_id: String,
    pub task_plan_version: u32,
}

/// What a [`IntentTaskPlanBindingV1`] holds.
#[verifier::ext_equal]
pub struct IntentTaskPlanBindingV1View {
    pub task_id: Seq<char>,
    pub task_plan_version: u32,
}

impl DeepView for IntentTaskPlanBindingV1 {
    type V = IntentTaskPlanBindingV1View;

    open spec fn deep_view(&self) -> IntentTaskPlanBindingV1View {
        IntentTaskPlanBindingV1View {
            task_id: self.task_id.deep_view(),
            task_plan_version: self.task_plan_version.deep_view(),
        }
    }
}

impl Value for IntentTaskPlanBindingV1 {
    fn same(&self, other: &Self) -> (r: bool) {
        self.task_id.same(&other.task_id)
            && self.task_plan_version.same(&other.task_plan_version)
    }

    fn duplicate(&self) -> (r: Self) {
        IntentTaskPlanBindingV1 {
            task_id: self.task_id.duplicate(),
            task_plan_version: self.task_plan_version.duplicate(),
        }
    }
}

/// Recovery-critical Intent Stack event payload contract.  froze this schema. registers the
/// stack/plan/acceptance subset; later slices register the execution, artifact, verification, and
/// operation variants.
#[derive(Debug, Clone, PartialEq, Eq)]
pub enum IntentEventV1 {
    StackCreated {
        schema_version: u16,
        stack_id: IntentStackId,
        workspace_id: String,
        source_session_id: String,
    },
    PlanRecorded {
        schema_version: u16,
        plan: IntentPlanV1,
    },
    PlanAccepted {
        schema_version: u16,
        stack_id: IntentStackId,
        stack_version: IntentStackVersion,
        plan_digest: IntentDigest,
        acceptance_kind: IntentAcceptanceKind,
        source_turn_id: String,
        acceptance_authority_id: String,
        task_plan_binding: Option<IntentTaskPlanBindingV1>,
    },
    ExecutionBound {
        schema_version: u16,
        stack_id: IntentStackId,
        stack_version: IntentStackVersion,
        binding: IntentExecutionBindingV1,
    },
    ChangeSetBound {
        schema_version: u16,
        intent_ref: IntentVersionRef,
        execution_id: IntentExecutionId,
        changeset_ids: Vec<String>,
    },
    LayerManifestRecorded {
        schema_version: u16,
        manifest: IntentLayerManifestV1,
    },
    ArtifactBindingsRecorded {
        schema_version: u16,
        manifest: IntentArtifactManifestV1,
    },
    VerificationLinked {
        schema_version: u16,
        evidence: Vec<IntentCriterionEvidenceV1>,
    },
    OperationRequested {
        schema_version: u16,
        preview: IntentOperationPreviewV1,
        safe_reason: String,
    },
    OperationPrepared {
        schema_version: u16,
        operation_id: IntentOperationId,
        stack_id: IntentStackId,
        stack_version: IntentStackVersion,
        preview_digest: IntentDigest,
        artifact_manifest_digest: IntentDigest,
        workspace_revision: u64,
        permission_policy_digest: IntentDigest,
        approval_authority_id: String,
        expires_at_ms: Option<u64>,
        mutation_batch_id: String,
    },
    OperationResolved {
        schema_version: u16,
        operation_id: IntentOperationId,
        resolution: IntentOperationResolution,
        mutation_batch_id: Option<String>,
        result_snapshot_id: Option<String>,
        error_code: Option<IntentOperationErrorCode>,
    },
    ConflictRecorded {
        schema_version: u16,
        stack_id: IntentStackId,
        stack_version: IntentStackVersion,
        conflict: IntentConflictV1,
    },
    VersionSuperseded {
        schema_version: u16,
        previous: IntentVersionRef,
        replacement: IntentVersionRef,
        safe_reason: String,
    },
}

/// What a [`IntentEventV1`] holds.
#[verifier::ext_equal]
pub enum IntentEventV1View {
    StackCreated {
        schema_version: u16,
        stack_id: Seq<char>,
        workspace_id: Seq<char>,
        source_session_id: Seq<char>,
    },
    PlanRecorded {
        schema_version: u16,
        plan: IntentPlanV1View,
    },
    PlanAccepted {
        schema_version: u16,
        stack_id: Seq<char>,
        stack_version: u64,
        plan_digest: Seq<char>,
        acceptance_kind: IntentAcceptanceKind,
        source_turn_id: Seq<char>,
        acceptance_authority_id: Seq<char>,
        task_plan_binding: Option<IntentTaskPlanBindingV1View>,
    },
    ExecutionBound {
        schema_version: u16,
        stack_id: Seq<char>,
        stack_version: u64,
        binding: IntentExecutionBindingV1View,
    },
    ChangeSetBound {
        schema_version: u16,
        intent_ref: IntentVersionRefView,
        execution_id: Seq<char>,
        changeset_ids: Seq<Seq<char>>,
    },
    LayerManifestRecorded {
        schema_version: u16,
        manifest: IntentLayerManifestV1View,
    },
    ArtifactBindingsRecorded {
        schema_version: u16,
        manifest: IntentArtifactManifestV1View,
    },
    VerificationLinked {
        schema_version: u16,
        evidence: Seq<IntentCriterionEvidenceV1View>,
    },
    OperationRequested {
        schema_version: u16,
        preview: IntentOperationPreviewV1View,
        safe_reason: Seq<char>,
    },
    OperationPrepared {
        schema_version: u16,
        operation_id: Seq<char>,
        stack_id: Seq<char>,
        stack_version: u64,
        preview_digest: Seq<char>,
        artifact_manifest_digest: Seq<char>,
        workspace_revision: u64,
        permission_policy_digest: Seq<char>,
        approval_authority_id: Seq<char>,
        expires_at_ms: Option<u64>,
        mutation_batch_id: Seq<char>,
    },
    OperationResolved {
        schema_version: u16,
        operation_id: Seq<char>,
        resolution: IntentOperationResolution,
        mutation_batch_id: Option<Seq<char>>,
        result_snapshot_id: Option<Seq<char>>,
        error_code: Option<IntentOperationErrorCode>,
    },
    ConflictRecorded {
        schema_version: u16,
        stack_id: Seq<char>,
        stack_version: u64,
        conflict: IntentConflictV1View,
    },
    VersionSuperseded {
        schema_version: u16,
        previous: IntentVersionRefView,
        replacement: IntentVersionRefView,
        safe_reason: Seq<char>,
    },
}

impl DeepView for IntentEventV1 {
    type V = IntentEventV1View;

    open spec fn deep_view(&self) -> IntentEventV1View {
        match self {
            IntentEventV1::StackCreated { schema_version, stack_id, workspace_id, source_session_id } => IntentEventV1View::StackCreated {
                schema_version: schema_version.deep_view(),
                stack_id: stack_id.deep_view(),
                workspace_id: workspace_id.deep_view(),
                source_session_id: source_session_id.deep_view(),
            },
            IntentEventV1::PlanRecorded { schema_version, plan } => IntentEventV1View::PlanRecorded {
                schema_version: schema_version.deep_view(),
                plan: plan.deep_view(),
            },
            IntentEventV1::PlanAccepted { schema_version, stack_id, stack_version, plan_digest, acceptance_kind, source_turn_id, acceptance_authority_id, task_plan_binding } => IntentEventV1View::PlanAccepted {
                schema_version: schema_version.deep_view(),
                stack_id: stack_id.deep_view(),
                stack_version: stack_version.deep_view(),
                plan_digest: plan_digest.deep_view(),
                acceptance_kind: acceptance_kind.deep_view(),
                source_turn_id: source_turn_id.deep_view(),
                acceptance_authority_id: acceptance_authority_id.deep_view(),
                task_plan_binding: task_plan_binding.deep_view(),
            },
            IntentEventV1::ExecutionBound { schema_version, stack_id, stack_version, binding } => IntentEventV1View::ExecutionBound {
                schema_version: schema_version.deep_view(),
                stack_id: stack_id.deep_view(),
                stack_version: stack_version.deep_view(),
                binding: binding.deep_view(),
            },
            IntentEventV1::ChangeSetBound { schema_version, intent_ref, execution_id, changeset_ids } => IntentEventV1View::ChangeSetBound {
                schema_version: schema_version.deep_view(),
                intent_ref: intent_ref.deep_view(),
                execution_id: execution_id.deep_view(),
                changeset_ids: changeset_ids.deep_view(),
            },
            IntentEventV1::LayerManifestRecorded { schema_version, manifest } => IntentEventV1View::LayerManifestRecorded {
                schema_version: schema_version.deep_view(),
                manifest: manifest.deep_view(),
            },
            IntentEventV1::ArtifactBindingsRecorded { schema_version, manifest } => IntentEventV1View::ArtifactBindingsRecorded {
                schema_version: schema_version.deep_view(),
                manifest: manifest.deep_view(),
            },
            IntentEventV1::VerificationLinked { schema_version, evidence } => IntentEventV1View::VerificationLinked {
                schema_version: schema_version.deep_view(),
                evidence: evidence.deep_view(),
            },
            IntentEventV1::OperationRequested { schema_version, preview, safe_reason } => IntentEventV1View::OperationRequested {
                schema_version: schema_version.deep_view(),
                preview: preview.deep_view(),
                safe_reason: safe_reason.deep_view(),
            },
            IntentEventV1::OperationPrepared { schema_version, operation_id, stack_id, stack_version, preview_digest, artifact_manifest_digest, workspace_revision, permission_policy_digest, approval_authority_id, expires_at_ms, mutation_batch_id } => IntentEventV1View::OperationPrepared {
                schema_version: schema_version.deep_view(),
                operation_id: operation_id.deep_view(),
                stack_id: stack_id.deep_view(),
                stack_version: stack_version.deep_view(),
                preview_digest: preview_digest.deep_view(),
                artifact_manifest_digest: artifact_manifest_digest.deep_view(),
                workspace_revision: workspace_revision.deep_view(),
                permission_policy_digest: permission_policy_digest.deep_view(),
                approval_authority_id: approval_authority_id.deep_view(),
                expires_at_ms: expires_at_ms.deep_view(),
                mutation_batch_id: mutation_batch_id.deep_view(),
            },
            IntentEventV1::OperationResolved { schema_version, operation_id, resolution, mutation_batch_id, result_snapshot_id, error_code } => IntentEventV1View::OperationResolved {
                schema_version: schema_version.deep_view(),
                operation_id: operation_id.deep_view(),
                resolution: resolution.deep_view(),
                mutation_batch_id: mutation_batch_id.deep_view(),
                result_snapshot_id: result_snapshot_id.deep_view(),
                error_code: error_code.deep_view(),
            },
            IntentEventV1::ConflictRecorded { schema_version, stack_id, stack_version, conflict } => IntentEventV1View::ConflictRecorded {
                schema_version: schema_version.deep_view(),
                stack_id: stack_id.deep_view(),
                stack_version: stack_version.deep_view(),
                conflict: conflict.deep_view(),
            },
            IntentEventV1::VersionSuperseded { schema_version, previous, replacement, safe_reason } => IntentEventV1View::VersionSuperseded {
                schema_version: schema_version.deep_view(),
                previous: previous.deep_view(),
                replacement: replacement.deep_view(),
                safe_reason: safe_reason.deep_view(),
            },
        }
    }
}

impl Value for IntentEventV1 {
    fn same(&self, other: &Self) -> (r: bool) {
        match (self, other) {
            (
                IntentEventV1::StackCreated { schema_version, stack_id, workspace_id, source_session_id },
                IntentEventV1::StackCreated { schema_version: schema_version2, stack_id: stack_id2, workspace_id: workspace_id2, source_session_id: source_session_id2 },
            ) => schema_version.same(schema_version2)
                && stack_id.same(stack_id2)
                && workspace_id.same(workspace_id2)
                && source_session_id.same(source_session_id2),
            (
                IntentEventV1::PlanRecorded { schema_version, plan },
                IntentEventV1::PlanRecorded { schema_version: schema_version2, plan: plan2 },
            ) => schema_version.same(schema_version2)
                && plan.same(plan2),
            (
                IntentEventV1::PlanAccepted { schema_version, stack_id, stack_version, plan_digest, acceptance_kind, source_turn_id, acceptance_authority_id, task_plan_binding },
                IntentEventV1::PlanAccepted { schema_version: schema_version2, stack_id: stack_id2, stack_version: stack_version2, plan_digest: plan_digest2, acceptance_kind: acceptance_kind2, source_turn_id: source_turn_id2, acceptance_authority_id: acceptance_authority_id2, task_plan_binding: task_plan_binding2 },
            ) => schema_version.same(schema_version2)
                && stack_id.same(stack_id2)
                && stack_version.same(stack_version2)
                && plan_digest.same(plan_digest2)
                && acceptance_kind.same(acceptance_kind2)
                && source_turn_id.same(source_turn_id2)
                && acceptance_authority_id.same(acceptance_authority_id2)
                && task_plan_binding.same(task_plan_binding2),
            (
                IntentEventV1::ExecutionBound { schema_version, stack_id, stack_version, binding },
                IntentEventV1::ExecutionBound { schema_version: schema_version2, stack_id: stack_id2, stack_version: stack_version2, binding: binding2 },
            ) => schema_version.same(schema_version2)
                && stack_id.same(stack_id2)
                && stack_version.same(stack_version2)
                && binding.same(binding2),
            (
                IntentEventV1::ChangeSetBound { schema_version, intent_ref, execution_id, changeset_ids },
                IntentEventV1::ChangeSetBound { schema_version: schema_version2, intent_ref: intent_ref2, execution_id: execution_id2, changeset_ids: changeset_ids2 },
            ) => schema_version.same(schema_version2)
                && intent_ref.same(intent_ref2)
                && execution_id.same(execution_id2)
                && changeset_ids.same(changeset_ids2),
            (
                IntentEventV1::LayerManifestRecorded { schema_version, manifest },
                IntentEventV1::LayerManifestRecorded { schema_version: schema_version2, manifest: manifest2 },
            ) => schema_version.same(schema_version2)
                && manifest.same(manifest2),
            (
                IntentEventV1::ArtifactBindingsRecorded { schema_version, manifest },
                IntentEventV1::ArtifactBindingsRecorded { schema_version: schema_version2, manifest: manifest2 },
            ) => schema_version.same(schema_version2)
                && manifest.same(manifest2),
            (
                IntentEventV1::VerificationLinked { schema_version, evidence },
                IntentEventV1::VerificationLinked { schema_version: schema_version2, evidence: evidence2 },
            ) => schema_version.same(schema_version2)
                && evidence.same(evidence2),
            (
                IntentEventV1::OperationRequested { schema_version, preview, safe_reason },
                IntentEventV1::OperationRequested { schema_version: schema_version2, preview: preview2, safe_reason: safe_reason2 },
            ) => schema_version.same(schema_version2)
                && preview.same(preview2)
                && safe_reason.same(safe_reason2),
            (
                IntentEventV1::OperationPrepared { schema_version, operation_id, stack_id, stack_version, preview_digest, artifact_manifest_digest, workspace_revision, permission_policy_digest, approval_authority_id, expires_at_ms, mutation_batch_id },
                IntentEventV1::OperationPrepared { schema_version: schema_version2, operation_id: operation_id2, stack_id: stack_id2, stack_version: stack_version2, preview_digest: preview_digest2, artifact_manifest_digest: artifact_manifest_digest2, workspace_revision: workspace_revision2, permission_policy_digest: permission_policy_digest2, approval_authority_id: approval_authority_id2, expires_at_ms: expires_at_ms2, mutation_batch_id: mutation_batch_id2 },
            ) => schema_version.same(schema_version2)
                && operation_id.same(operation_id2)
                && stack_id.same(stack_id2)
                && stack_version.same(stack_version2)
                && preview_digest.same(preview_digest2)
                && artifact_manifest_digest.same(artifact_manifest_digest2)
                && workspace_revision.same(workspace_revision2)
                && permission_policy_digest.same(permission_policy_digest2)
                && approval_authority_id.same(approval_authority_id2)
                && expires_at_ms.same(expires_at_ms2)
                && mutation_batch_id.same(mutation_batch_id2),
            (
                IntentEventV1::OperationResolved { schema_version, operation_id, resolution, mutation_batch_id, result_snapshot_id, error_code },
                IntentEventV1::OperationResolved { schema_version: schema_version2, operation_id: operation_id2, resolution: resolution2, mutation_batch_id: mutation_batch_id2, result_snapshot_id: result_snapshot_id2, error_code: error_code2 },
            ) => schema_version.same(schema_version2)
                && operation_id.same(operation_id2)
                && resolution.same(resolution2)
                && mutation_batch_id.same(mutation_batch_id2)
                && result_snapshot_id.same(result_snapshot_id2)
                && error_code.same(error_code2),
            (
                IntentEventV1::ConflictRecorded { schema_version, stack_id, stack_version, conflict },
                IntentEventV1::ConflictRecorded { schema_version: schema_version2, stack_id: stack_id2, stack_version: stack_version2, conflict: conflict2 },
            ) => schema_version.same(schema_version2)
                && stack_id.same(stack_id2)
                && stack_version.same(stack_version2)
                && conflict.same(conflict2),
            (
                IntentEventV1::VersionSuperseded { schema_version, previous, replacement, safe_reason },
                IntentEventV1::VersionSuperseded { schema_version: schema_version2, previous: previous2, replacement: replacement2, safe_reason: safe_reason2 },
            ) => schema_version.same(schema_version2)
                && previous.same(previous2)
                && replacement.same(replacement2)
                && safe_reason.same(safe_reason2),
            _ => false,
        }
    }

    fn duplicate(&self) -> (r: Self) {
        match self {
            IntentEventV1::StackCreated { schema_version, stack_id, workspace_id, source_session_id } => IntentEventV1::StackCreated {
                schema_version: schema_version.duplicate(),
                stack_id: stack_id.duplicate(),
                workspace_id: workspace_id.duplicate(),
                source_session_id: source_session_id.duplicate(),
            },
            IntentEventV1::PlanRecorded { schema_version, plan } => IntentEventV1::PlanRecorded {
                schema_version: schema_version.duplicate(),
                plan: plan.duplicate(),
            },
            IntentEventV1::PlanAccepted { schema_version, stack_id, stack_version, plan_digest, acceptance_kind, source_turn_id, acceptance_authority_id, task_plan_binding } => IntentEventV1::PlanAccepted {
                schema_version: schema_version.duplicate(),
                stack_id: stack_id.duplicate(),
                stack_version: stack_version.duplicate(),
                plan_digest: plan_digest.duplicate(),
                acceptance_kind: acceptance_kind.duplicate(),
                source_turn_id: source_turn_id.duplicate(),
                acceptance_authority_id: acceptance_authority_id.duplicate(),
                task_plan_binding: task_plan_binding.duplicate(),
            },
            IntentEventV1::ExecutionBound { schema_version, stack_id, stack_version, binding } => IntentEventV1::ExecutionBound {
                schema_version: schema_version.duplicate(),
                stack_id: stack_id.duplicate(),
                stack_version: stack_version.duplicate(),
                binding: binding.duplicate(),
            },
            IntentEventV1::ChangeSetBound { schema_version, intent_ref, execution_id, changeset_ids } => IntentEventV1::ChangeSetBound {
                schema_version: schema_version.duplicate(),
                intent_ref: intent_ref.duplicate(),
                execution_id: execution_id.duplicate(),
                changeset_ids: changeset_ids.duplicate(),
            },
            IntentEventV1::LayerManifestRecorded { schema_version, manifest } => IntentEventV1::LayerManifestRecorded {
                schema_version: schema_version.duplicate(),
                manifest: manifest.duplicate(),
            },
            IntentEventV1::ArtifactBindingsRecorded { schema_version, manifest } => IntentEventV1::ArtifactBindingsRecorded {
                schema_version: schema_version.duplicate(),
                manifest: manifest.duplicate(),
            },
            IntentEventV1::VerificationLinked { schema_version, evidence } => IntentEventV1::VerificationLinked {
                schema_version: schema_version.duplicate(),
                evidence: evidence.duplicate(),
            },
            IntentEventV1::OperationRequested { schema_version, preview, safe_reason } => IntentEventV1::OperationRequested {
                schema_version: schema_version.duplicate(),
                preview: preview.duplicate(),
                safe_reason: safe_reason.duplicate(),
            },
            IntentEventV1::OperationPrepared { schema_version, operation_id, stack_id, stack_version, preview_digest, artifact_manifest_digest, workspace_revision, permission_policy_digest, approval_authority_id, expires_at_ms, mutation_batch_id } => IntentEventV1::OperationPrepared {
                schema_version: schema_version.duplicate(),
                operation_id: operation_id.duplicate(),
                stack_id: stack_id.duplicate(),
                stack_version: stack_version.duplicate(),
                preview_digest: preview_digest.duplicate(),
                artifact_manifest_digest: artifact_manifest_digest.duplicate(),
                workspace_revision: workspace_revision.duplicate(),
                permission_policy_digest: permission_policy_digest.duplicate(),
                approval_authority_id: approval_authority_id.duplicate(),
                expires_at_ms: expires_at_ms.duplicate(),
                mutation_batch_id: mutation_batch_id.duplicate(),
            },
            IntentEventV1::OperationResolved { schema_version, operation_id, resolution, mutation_batch_id, result_snapshot_id, error_code } => IntentEventV1::OperationResolved {
                schema_version: schema_version.duplicate(),
                operation_id: operation_id.duplicate(),
                resolution: resolution.duplicate(),
                mutation_batch_id: mutation_batch_id.duplicate(),
                result_snapshot_id: result_snapshot_id.duplicate(),
                error_code: error_code.duplicate(),
            },
            IntentEventV1::ConflictRecorded { schema_version, stack_id, stack_version, conflict } => IntentEventV1::ConflictRecorded {
                schema_version: schema_version.duplicate(),
                stack_id: stack_id.duplicate(),
                stack_version: stack_version.duplicate(),
                conflict: conflict.duplicate(),
            },
            IntentEventV1::VersionSuperseded { schema_version, previous, replacement, safe_reason } => IntentEventV1::VersionSuperseded {
                schema_version: schema_version.duplicate(),
                previous: previous.duplicate(),
                replacement: replacement.duplicate(),
                safe_reason: safe_reason.duplicate(),
            },
        }
    }
}

/// Bounded public state for one intent card.
#[derive(Debug, Clone, PartialEq, Eq)]
pub struct PublicIntentV1 {
    pub intent_ref: IntentVersionRef,
    pub title: String,
    pub statement: String,
    pub acceptance_criteria: Vec<IntentAcceptanceCriterionV1>,
    pub depends_on: Vec<IntentId>,
    pub source: PublicIntentSourceV1,
    pub definition_state: IntentDefinitionState,
    pub application_state: IntentApplicationState,
    pub exclusive_artifact_count: u32,
    pub shared_artifact_count: u32,
    pub unowned_artifact_count: u32,
    pub drifted_artifact_count: u32,
    pub unavailable_artifact_count: u32,
    pub advisory_criterion_count: u32,
    pub system_verified_criterion_count: u32,
    pub artifacts: Vec<PublicIntentArtifactSummaryV1>,
    pub available_actions: Vec<IntentOperationKind>,
}

/// What a [`PublicIntentV1`] holds.
#[verifier::ext_equal]
pub struct PublicIntentV1View {
    pub intent_ref: IntentVersionRefView,
    pub title: Seq<char>,
    pub statement: Seq<char>,
    pub acceptance_criteria: Seq<IntentAcceptanceCriterionV1View>,
    pub depends_on: Seq<Seq<char>>,
    pub source: PublicIntentSourceV1View,
    pub definition_state: IntentDefinitionState,
    pub application_state: IntentApplicationState,
    pub exclusive_artifact_count: u32,
    pub shared_artifact_count: u32,
    pub unowned_artifact_count: u32,
    pub drifted_artifact_count: u32,
    pub unavailable_artifact_count: u32,
    pub advisory_criterion_count: u32,
    pub system_verified_criterion_count: u32,
    pub artifacts: Seq<PublicIntentArtifactSummaryV1View>,
    pub available_actions: Seq<IntentOperationKind>,
}

impl DeepView for PublicIntentV1 {
    type V = PublicIntentV1View;

    open spec fn deep_view(&self) -> PublicIntentV1View {
        PublicIntentV1View {
            intent_ref: self.intent_ref.deep_view(),
            title: self.title.deep_view(),
            statement: self.statement.deep_view(),
            acceptance_criteria: self.acceptance_criteria.deep_view(),
            depends_on: self.depends_on.deep_view(),
            source: self.source.deep_view(),
            definition_state: self.definition_state.deep_view(),
            application_state: self.application_state.deep_view(),
            exclusive_artifact_count: self.exclusive_artifact_count.deep_view(),
            shared_artifact_count: self.shared_artifact_count.deep_view(),
            unowned_artifact_count: self.unowned_artifact_count.deep_view(),
            drifted_artifact_count: self.drifted_artifact_count.deep_view(),
            unavailable_artifact_count: self.unavailable_artifact_count.deep_view(),
            advisory_criterion_count: self.advisory_criterion_count.deep_view(),
            system_verified_criterion_count: self.system_verified_criterion_count.deep_view(),
            artifacts: self.artifacts.deep_view(),
            available_actions: self.available_actions.deep_view(),
        }
    }
}

impl Value for PublicIntentV1 {
    fn same(&self, other: &Self) -> (r: bool) {
        self.intent_ref.same(&other.intent_ref)
            && self.title.same(&other.title)
            && self.statement.same(&other.statement)
            && self.acceptance_criteria.same(&other.acceptance_criteria)
            && self.depends_on.same(&other.depends_on)
            && self.source.same(&other.source)
            && self.definition_state.same(&other.definition_state)
            && self.application_state.same(&other.application_state)
            && self.exclusive_artifact_count.same(&other.exclusive_artifact_count)
            && self.shared_artifact_count.same(&other.shared_artifact_count)
            && self.unowned_artifact_count.same(&other.unowned_artifact_count)
            && self.drifted_artifact_count.same(&other.drifted_artifact_count)
            && self.unavailable_artifact_count.same(&other.unavailable_artifact_count)
            && self.advisory_criterion_count.same(&other.advisory_criterion_count)
            && self.system_verified_criterion_count.same(&other.system_verified_criterion_count)
            && self.artifacts.same(&other.artifacts)
            && self.available_actions.same(&other.available_actions)
    }

    fn duplicate(&self) -> (r: Self) {
        PublicIntentV1 {
            intent_ref: self.intent_ref.duplicate(),
            title: self.title.duplicate(),
            statement: self.statement.duplicate(),
            acceptance_criteria: self.acceptance_criteria.duplicate(),
            depends_on: self.depends_on.duplicate(),
            source: self.source.duplicate(),
            definition_state: self.definition_state.duplicate(),
            application_state: self.application_state.duplicate(),
            exclusive_artifact_count: self.exclusive_artifact_count.duplicate(),
            shared_artifact_count: self.shared_artifact_count.duplicate(),
            unowned_artifact_count: self.unowned_artifact_count.duplicate(),
            drifted_artifact_count: self.drifted_artifact_count.duplicate(),
            unavailable_artifact_count: self.unavailable_artifact_count.duplicate(),
            advisory_criterion_count: self.advisory_criterion_count.duplicate(),
            system_verified_criterion_count: self.system_verified_criterion_count.duplicate(),
            artifacts: self.artifacts.duplicate(),
            available_actions: self.available_actions.duplicate(),
        }
    }
}

/// Bounded artifact inspect row for adapter renderers.
#[derive(Debug, Clone, PartialEq, Eq)]
pub struct PublicIntentArtifactSummaryV1 {
    pub artifact_id: IntentArtifactId,
    pub artifact_kind: IntentArtifactKind,
    pub ownership: IntentArtifactOwnership,
    pub availability: IntentArtifactAvailability,
    pub normalized_relative_path: Option<String>,
}

/// What a [`PublicIntentArtifactSummaryV1`] holds.
#[verifier::ext_equal]
pub struct PublicIntentArtifactSummaryV1View {
    pub artifact_id: Seq<char>,
    pub artifact_kind: IntentArtifactKind,
    pub ownership: IntentArtifactOwnership,
    pub availability: IntentArtifactAvailability,
    pub normalized_relative_path: Option<Seq<char>>,
}

impl DeepView for PublicIntentArtifactSummaryV1 {
    type V = PublicIntentArtifactSummaryV1View;

    open spec fn deep_view(&self) -> PublicIntentArtifactSummaryV1View {
        PublicIntentArtifactSummaryV1View {
            artifact_id: self.artifact_id.deep_view(),
            artifact_kind: self.artifact_kind.deep_view(),
            ownership: self.ownership.deep_view(),
            availability: self.availability.deep_view(),
            normalized_relative_path: self.normalized_relative_path.deep_view(),
        }
    }
}

impl Value for PublicIntentArtifactSummaryV1 {
    fn same(&self, other: &Self) -> (r: bool) {
        self.artifact_id.same(&other.artifact_id)
            && self.artifact_kind.same(&other.artifact_kind)
            && self.ownership.same(&other.ownership)
            && self.availability.same(&other.availability)
            && self.normalized_relative_path.same(&other.normalized_relative_path)
    }

    fn duplicate(&self) -> (r: Self) {
        PublicIntentArtifactSummaryV1 {
            artifact_id: self.artifact_id.duplicate(),
            artifact_kind: self.artifact_kind.duplicate(),
            ownership: self.ownership.duplicate(),
            availability: self.availability.duplicate(),
            normalized_relative_path: self.normalized_relative_path.duplicate(),
        }
    }
}

/// Bounded public provenance. It cannot carry acceptance or mutation authority.
#[derive(Debug, Clone, PartialEq, Eq)]
pub enum PublicIntentSourceV1 {
    UserTurn {
        source_turn_id: String,
    },
    AcceptedSuggestion {
        source_turn_id: String,
    },
    TrustedSource {
        safe_source_label: String,
    },
}

/// What a [`PublicIntentSourceV1`] holds.
#[verifier::ext_equal]
pub enum PublicIntentSourceV1View {
    UserTurn {
        source_turn_id: Seq<char>,
    },
    AcceptedSuggestion {
        source_turn_id: Seq<char>,
    },
    TrustedSource {
        safe_source_label: Seq<char>,
    },
}

impl DeepView for PublicIntentSourceV1 {
    type V = PublicIntentSourceV1View;

    open spec fn deep_view(&self) -> PublicIntentSourceV1View {
        match self {
            PublicIntentSourceV1::UserTurn { source_turn_id } => PublicIntentSourceV1View::UserTurn {
                source_turn_id: source_turn_id.deep_view(),
            },
            PublicIntentSourceV1::AcceptedSuggestion { source_turn_id } => PublicIntentSourceV1View::AcceptedSuggestion {
                source_turn_id: source_turn_id.deep_view(),
            },
            PublicIntentSourceV1::TrustedSource { safe_source_label } => PublicIntentSourceV1View::TrustedSource {
                safe_source_label: safe_source_label.deep_view(),
            },
        }
    }
}

impl Value for PublicIntentSourceV1 {
    fn same(&self, other: &Self) -> (r: bool) {
        match (self, other) {
            (
                PublicIntentSourceV1::UserTurn { source_turn_id },
                PublicIntentSourceV1::UserTurn { source_turn_id: source_turn_id2 },
            ) => source_turn_id.same(source_turn_id2),
            (
                PublicIntentSourceV1::AcceptedSuggestion { source_turn_id },
                PublicIntentSourceV1::AcceptedSuggestion { source_turn_id: source_turn_id2 },
            ) => source_turn_id.same(source_turn_id2),
            (
                PublicIntentSourceV1::TrustedSource { safe_source_label },
                PublicIntentSourceV1::TrustedSource { safe_source_label: safe_source_label2 },
            ) => safe_source_label.same(safe_source_label2),
            _ => false,
        }
    }

    fn duplicate(&self) -> (r: Self) {
        match self {
            PublicIntentSourceV1::UserTurn { source_turn_id } => PublicIntentSourceV1::UserTurn {
                source_turn_id: source_turn_id.duplicate(),
            },
            PublicIntentSourceV1::AcceptedSuggestion { source_turn_id } => PublicIntentSourceV1::AcceptedSuggestion {
                source_turn_id: source_turn_id.duplicate(),
            },
            PublicIntentSourceV1::TrustedSource { safe_source_label } => PublicIntentSourceV1::TrustedSource {
                safe_source_label: safe_source_label.duplicate(),
            },
        }
    }
}

/// Bounded adapter projection. It contains no raw patch, absolute path, or mutation authority.
#[derive(Debug, Clone, PartialEq, Eq)]
pub struct PublicIntentStackV1 {
    pub schema_version: u16,
    pub stack_id: IntentStackId,
    pub stack_version: IntentStackVersion,
    pub authority_state: IntentAuthorityState,
    pub plan_digest: IntentDigest,
    pub intents: Vec<PublicIntentV1>,
    pub conflicts: Vec<IntentConflictV1>,
}

/// What a [`PublicIntentStackV1`] holds.
#[verifier::ext_equal]
pub struct PublicIntentStackV1View {
    pub schema_version: u16,
    pub stack_id: Seq<char>,
    pub stack_version: u64,
    pub authority_state: IntentAuthorityState,
    pub plan_digest: Seq<char>,
    pub intents: Seq<PublicIntentV1View>,
    pub conflicts: Seq<IntentConflictV1View>,
}

impl DeepView for PublicIntentStackV1 {
    type V = PublicIntentStackV1View;

    open spec fn deep_view(&self) -> PublicIntentStackV1View {
        PublicIntentStackV1View {
            schema_version: self.schema_version.deep_view(),
            stack_id: self.stack_id.deep_view(),
            stack_version: self.stack_version.deep_view(),
            authority_state: self.authority_state.deep_view(),
            plan_digest: self.plan_digest.deep_view(),
            intents: self.intents.deep_view(),
            conflicts: self.conflicts.deep_view(),
        }
    }
}

impl Value for PublicIntentStackV1 {
    fn same(&self, other: &Self) -> (r: bool) {
        self.schema_version.same(&other.schema_version)
            && self.stack_id.same(&other.stack_id)
            && self.stack_version.same(&other.stack_version)
            && self.authority_state.same(&other.authority_state)
            && self.plan_digest.same(&other.plan_digest)
            && self.intents.same(&other.intents)
            && self.conflicts.same(&other.conflicts)
    }

    fn duplicate(&self) -> (r: Self) {
        PublicIntentStackV1 {
            schema_version: self.schema_version.duplicate(),
            stack_id: self.stack_id.duplicate(),
            stack_version: self.stack_version.duplicate(),
            authority_state: self.authority_state.duplicate(),
            plan_digest: self.plan_digest.duplicate(),
            intents: self.intents.duplicate(),
            conflicts: self.conflicts.duplicate(),
        }
    }
}

/// Top-level public availability contract for old sessions and active Intent Stacks.
#[derive(Debug, Clone, PartialEq, Eq)]
pub enum PublicIntentStackStateV1 {
    Available {
        schema_version: u16,
        stack: PublicIntentStackV1,
    },
    HistoryUnavailable {
        schema_version: u16,
        safe_message: String,
    },
}

/// What a [`PublicIntentStackStateV1`] holds.
#[verifier::ext_equal]
pub enum PublicIntentStackStateV1View {
    Available {
        schema_version: u16,
        stack: PublicIntentStackV1View,
    },
    HistoryUnavailable {
        schema_version: u16,
        safe_message: Seq<char>,
    },
}

impl DeepView for PublicIntentStackStateV1 {
    type V = PublicIntentStackStateV1View;

    open spec fn deep_view(&self) -> PublicIntentStackStateV1View {
        match self {
            PublicIntentStackStateV1::Available { schema_version, stack } => PublicIntentStackStateV1View::Available {
                schema_version: schema_version.deep_view(),
                stack: stack.deep_view(),
            },
            PublicIntentStackStateV1::HistoryUnavailable { schema_version, safe_message } => PublicIntentStackStateV1View::HistoryUnavailable {
                schema_version: schema_version.deep_view(),
                safe_message: safe_message.deep_view(),
            },
        }
    }
}

impl Value for PublicIntentStackStateV1 {
    fn same(&self, other: &Self) -> (r: bool) {
        match (self, other) {
            (
                PublicIntentStackStateV1::Available { schema_version, stack },
                PublicIntentStackStateV1::Available { schema_version: schema_version2, stack: stack2 },
            ) => schema_version.same(schema_version2)
                && stack.same(stack2),
            (
                PublicIntentStackStateV1::HistoryUnavailable { schema_version, safe_message },
                PublicIntentStackStateV1::HistoryUnavailable { schema_version: schema_version2, safe_message: safe_message2 },
            ) => schema_version.same(schema_version2)
                && safe_message.same(safe_message2),
            _ => false,
        }
    }

    fn duplicate(&self) -> (r: Self) {
        match self {
            PublicIntentStackStateV1::Available { schema_version, stack } => PublicIntentStackStateV1::Available {
                schema_version: schema_version.duplicate(),
                stack: stack.duplicate(),
            },
            PublicIntentStackStateV1::HistoryUnavailable { schema_version, safe_message } => PublicIntentStackStateV1::HistoryUnavailable {
                schema_version: schema_version.duplicate(),
                safe_message: safe_message.duplicate(),
            },
        }
    }
}

/// Bounded public operation error.
#[derive(Debug, Clone, PartialEq, Eq)]
pub struct PublicIntentOperationErrorV1 {
    pub schema_version: u16,
    pub code: IntentOperationErrorCode,
    pub safe_message: String,
    pub retryable: bool,
}

/// What a [`PublicIntentOperationErrorV1`] holds.
#[verifier::ext_equal]
pub struct PublicIntentOperationErrorV1View {
    pub schema_version: u16,
    pub code: IntentOperationErrorCode,
    pub safe_message: Seq<char>,
    pub retryable: bool,
}

impl DeepView for PublicIntentOperationErrorV1 {
    type V = PublicIntentOperationErrorV1View;

    open spec fn deep_view(&self) -> PublicIntentOperationErrorV1View {
        PublicIntentOperationErrorV1View {
            schema_version: self.schema_version.deep_view(),
            code: self.code.deep_view(),
            safe_message: self.safe_message.deep_view(),
            retryable: self.retryable.deep_view(),
        }
    }
}

impl Value for PublicIntentOperationErrorV1 {
    fn same(&self, other: &Self) -> (r: bool) {
        self.schema_version.same(&other.schema_version)
            && self.code.same(&other.code)
            && self.safe_message.same(&other.safe_message)
            && self.retryable.same(&other.retryable)
    }

    fn duplicate(&self) -> (r: Self) {
        PublicIntentOperationErrorV1 {
            schema_version: self.schema_version.duplicate(),
            code: self.code.duplicate(),
            safe_message: self.safe_message.duplicate(),
            retryable: self.retryable.duplicate(),
        }
    }
}

} // verus!
