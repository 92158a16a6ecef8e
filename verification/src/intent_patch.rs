//! The byte formats of patches and hunks, and where two texts differ.

use vstd::prelude::*;
use vstd::utf8::{decode_utf8, encode_utf8, is_char_boundary, valid_utf8};

use crate::external::digits;
use crate::intent::{
    digest_verdict, IntentByteRangeV1, IntentByteRangeV1View, IntentContentDigest, IntentDigest,
};
use crate::intent_state::{ExactIntentPatchFileV1, ExactIntentPatchFileV1View};
use crate::text::{is_plain_relative_path, plain_relative_path};
use crate::value::{distinct, lemma_push_view, outcome, KernelError, Value};

verus! {

/// What a patch begins with.
pub const INTENT_PATCH_MAGIC: &'static str = "sigil-intent-patch-v1\0";

/// What a hunk begins with.
pub const INTENT_HUNK_MAGIC: &'static str = "sigil-intent-hunk-v1\0";

/// Most files of one patch.
pub const MAX_INTENT_PATCH_FILES: usize = 1_024;

/// Most bytes of the path of a file in a patch.
pub const MAX_INTENT_PATCH_PATH_BYTES: usize = 4_096;

/// Most bytes of a digest in a patch.
pub const MAX_INTENT_PATCH_DIGEST_BYTES: usize = 128;

/// Most bytes of the contents of one file.
pub const MAX_WORKSPACE_SNAPSHOT_FILE_BYTES: u64 = 16_777_216;

/// The exact change of one file: its contents before and after, and where they differ.
#[derive(Debug, Clone, PartialEq, Eq)]
pub struct MaterializedIntentFile {
    pub path: String,
    pub before: Option<Vec<u8>>,
    pub after: Option<Vec<u8>>,
    pub before_digest: IntentContentDigest,
    pub after_digest: IntentContentDigest,
    pub old_range: IntentByteRangeV1,
    pub new_range: IntentByteRangeV1,
    pub old_content_digest: IntentContentDigest,
    pub new_content_digest: IntentContentDigest,
    pub old_changed_bytes: Vec<u8>,
    pub new_changed_bytes: Vec<u8>,
    pub source_event_id: String,
    pub mutation_identity: String,
    pub changeset_id: String,
}

/// What a [`MaterializedIntentFile`] holds.
#[verifier::ext_equal]
pub struct MaterializedIntentFileView {
    pub path: Seq<char>,
    pub before: Option<Seq<u8>>,
    pub after: Option<Seq<u8>>,
    pub before_digest: Seq<char>,
    pub after_digest: Seq<char>,
    pub old_range: IntentByteRangeV1View,
    pub new_range: IntentByteRangeV1View,
    pub old_content_digest: Seq<char>,
    pub new_content_digest: Seq<char>,
    pub old_changed_bytes: Seq<u8>,
    pub new_changed_bytes: Seq<u8>,
    pub source_event_id: Seq<char>,
    pub mutation_identity: Seq<char>,
    pub changeset_id: Seq<char>,
}

impl DeepView for MaterializedIntentFile {
    type V = MaterializedIntentFileView;

    open spec fn deep_view(&self) -> MaterializedIntentFileView {
        MaterializedIntentFileView {
            path: self.path.deep_view(),
            before: self.before.deep_view(),
            after: self.after.deep_view(),
            before_digest: self.before_digest.deep_view(),
            after_digest: self.after_digest.deep_view(),
            old_range: self.old_range.deep_view(),
            new_range: self.new_range.deep_view(),
            old_content_digest: self.old_content_digest.deep_view(),
            new_content_digest: self.new_content_digest.deep_view(),
            old_changed_bytes: self.old_changed_bytes.deep_view(),
            new_changed_bytes: self.new_changed_bytes.deep_view(),
            source_event_id: self.source_event_id.deep_view(),
            mutation_identity: self.mutation_identity.deep_view(),
            changeset_id: self.changeset_id.deep_view(),
        }
    }
}

impl Value for MaterializedIntentFile {
    fn same(&self, other: &Self) -> (r: bool) {
        self.path.same(&other.path)
            && self.before.same(&other.before)
            && self.after.same(&other.after)
            && self.before_digest.same(&other.before_digest)
            && self.after_digest.same(&other.after_digest)
            && self.old_range.same(&other.old_range)
            && self.new_range.same(&other.new_range)
            && self.old_content_digest.same(&other.old_content_digest)
            && self.new_content_digest.same(&other.new_content_digest)
            && self.old_changed_bytes.same(&other.old_changed_bytes)
            && self.new_changed_bytes.same(&other.new_changed_bytes)
            && self.source_event_id.same(&other.source_event_id)
            && self.mutation_identity.same(&other.mutation_identity)
            && self.changeset_id.same(&other.changeset_id)
    }

    fn duplicate(&self) -> (r: Self) {
        MaterializedIntentFile {
            path: self.path.duplicate(),
            before: self.before.duplicate(),
            after: self.after.duplicate(),
            before_digest: self.before_digest.duplicate(),
            after_digest: self.after_digest.duplicate(),
            old_range: self.old_range.duplicate(),
            new_range: self.new_range.duplicate(),
            old_content_digest: self.old_content_digest.duplicate(),
            new_content_digest: self.new_content_digest.duplicate(),
            old_changed_bytes: self.old_changed_bytes.duplicate(),
            new_changed_bytes: self.new_changed_bytes.duplicate(),
            source_event_id: self.source_event_id.duplicate(),
            mutation_identity: self.mutation_identity.duplicate(),
            changeset_id: self.changeset_id.duplicate(),
        }
    }
}

/// Whether a patch makes a change or takes it back.
#[derive(Debug, Clone, Copy, PartialEq, Eq, Structural)]
pub enum PatchDirection {
    Forward,
    Reverse,
}

impl DeepView for PatchDirection {
    type V = PatchDirection;

    open spec fn deep_view(&self) -> PatchDirection {
        *self
    }
}

impl Value for PatchDirection {
    fn same(&self, other: &Self) -> (r: bool) {
        *self == *other
    }

    fn duplicate(&self) -> (r: Self) {
        *self
    }
}

/// `std::str::from_utf8`, with the text copied: the contract claims that it accepts exactly the valid
/// byte strings and gives back the text that they encode.
#[verifier::external_body]
pub(crate) fn utf8_text(bytes: &[u8]) -> (r: Option<String>)
    ensures
        match r {
            Some(s) => valid_utf8(bytes@) && s@ == decode_utf8(bytes@),
            None => !valid_utf8(bytes@),
        },
{
    match std::str::from_utf8(bytes) {
        Ok(s) => Some(s.to_owned()),
        Err(_) => None,
    }
}

// Numbers.

/// The last `k` base-256 digits of `n`, the greatest first.
pub open spec fn big_endian(n: nat, k: nat) -> Seq<u8>
    decreases k,
{
    if k == 0 {
        Seq::empty()
    } else {
        big_endian(n / 256, (k - 1) as nat).push((n % 256) as u8)
    }
}

/// The number that base-256 digits stand for.
pub open spec fn number_of(digits: Seq<u8>) -> nat
    decreases digits.len(),
{
    if digits.len() == 0 {
        0
    } else {
        number_of(digits.drop_last()) * 256 + digits.last() as nat
    }
}

/// How many numbers `k` digits can stand for.
pub open spec fn powers(k: nat) -> nat
    decreases k,
{
    if k == 0 {
        1
    } else {
        256 * powers((k - 1) as nat)
    }
}

/// Digits stand for a number that they have room for.
pub proof fn lemma_number_bound(digits: Seq<u8>)
    ensures
        number_of(digits) < powers(digits.len()),
    decreases digits.len(),
{
    if digits.len() > 0 {
        lemma_number_bound(digits.drop_last());
    }
}

proof fn lemma_powers()
    ensures
        powers(4) == 0x1_0000_0000,
        powers(7) == 0x100_0000_0000_0000,
        powers(8) == 0x1_0000_0000_0000_0000,
{
    reveal_with_fuel(powers, 9);
}

/// A number has as many digits as asked for.
pub proof fn lemma_big_endian_len(n: nat, k: nat)
    ensures
        big_endian(n, k).len() == k,
    decreases k,
{
    if k > 0 {
        lemma_big_endian_len(n / 256, (k - 1) as nat);
    }
}

/// The digits of a number stand for it, where there is room.
pub proof fn lemma_number_of_digits(n: nat, k: nat)
    requires
        n < powers(k),
    ensures
        number_of(big_endian(n, k)) == n,
    decreases k,
{
    if k > 0 {
        assert(n / 256 < powers((k - 1) as nat));
        lemma_number_of_digits(n / 256, (k - 1) as nat);
        let d = big_endian(n, k);
        assert(d.drop_last() =~= big_endian(n / 256, (k - 1) as nat));
    }
}

/// Digits are the digits of the number that they stand for.
pub proof fn lemma_digits_of_number(digits: Seq<u8>)
    ensures
        big_endian(number_of(digits), digits.len()) == digits,
    decreases digits.len(),
{
    if digits.len() > 0 {
        lemma_digits_of_number(digits.drop_last());
        let n = number_of(digits);
        let m = number_of(digits.drop_last());
        let last = digits.last() as nat;
        assert(n == m * 256 + last);
        assert(n / 256 == m);
        assert(n % 256 == last);
        assert(big_endian(n, digits.len()) =~= digits);
    } else {
        assert(big_endian(0, 0) =~= digits);
    }
}

fn push_number(output: &mut Vec<u8>, value: u64, digits: usize)
    ensures
        final(output)@ == old(output)@ + big_endian(value as nat, digits as nat),
    decreases digits,
{
    if digits == 0 {
        assert(output@ =~= output@ + big_endian(value as nat, 0));
    } else {
        let ghost before = output@;
        push_number(output, value / 256, digits - 1);
        output.push((value % 256) as u8);
        assert(output@ =~= before + big_endian(value as nat, digits as nat));
    }
}

// Writing.

/// A byte string behind its length.
pub open spec fn sized(bytes: Seq<u8>) -> Seq<u8> {
    big_endian(bytes.len(), 8) + bytes
}

/// A flag as one byte.
pub open spec fn flag_byte(flag: bool) -> Seq<u8> {
    if flag {
        seq![1u8]
    } else {
        seq![0u8]
    }
}

/// An optional byte string.
pub open spec fn optional_bytes(bytes: Option<Seq<u8>>) -> Seq<u8> {
    match bytes {
        Some(b) => flag_byte(true) + sized(b),
        None => flag_byte(false),
    }
}

/// One file of a patch: its path, whether it is expected to be there, the digest of the contents it is
/// expected to have, and the contents it is to get.
pub open spec fn patch_file_bytes(f: ExactIntentPatchFileV1View) -> Seq<u8> {
    sized(encode_utf8(f.path)) + flag_byte(f.expected_present) + sized(
        encode_utf8(f.expected_digest),
    ) + optional_bytes(f.target)
}

/// The files of a patch, one behind the other.
pub open spec fn patch_files_bytes(files: Seq<ExactIntentPatchFileV1View>) -> Seq<u8>
    decreases files.len(),
{
    if files.len() == 0 {
        Seq::empty()
    } else {
        patch_file_bytes(files[0]) + patch_files_bytes(files.drop_first())
    }
}

/// A patch.
pub open spec fn patch_bytes(files: Seq<ExactIntentPatchFileV1View>) -> Seq<u8> {
    encode_utf8(INTENT_PATCH_MAGIC@) + big_endian(files.len(), 4) + patch_files_bytes(files)
}

/// What a patch says of one changed file.
pub open spec fn patch_entry(f: MaterializedIntentFileView, direction: PatchDirection) -> ExactIntentPatchFileV1View {
    match direction {
        PatchDirection::Forward => ExactIntentPatchFileV1View {
            path: f.path,
            expected_present: f.before is Some,
            expected_digest: f.before_digest,
            target: f.after,
        },
        PatchDirection::Reverse => ExactIntentPatchFileV1View {
            path: f.path,
            expected_present: f.after is Some,
            expected_digest: f.after_digest,
            target: f.before,
        },
    }
}

/// What a patch says of all changed files.
pub open spec fn patch_entries(
    files: Seq<MaterializedIntentFileView>,
    direction: PatchDirection,
) -> Seq<ExactIntentPatchFileV1View> {
    Seq::new(files.len(), |i: int| patch_entry(files[i], direction))
}

/// The patch of changed files, or the failure where there are more than can be counted.
pub open spec fn encoded_patch(
    files: Seq<MaterializedIntentFileView>,
    direction: PatchDirection,
) -> Result<Seq<u8>, Seq<char>> {
    if files.len() > u32::MAX {
        Err("Intent artifact contains too many files"@)
    } else {
        Ok(patch_bytes(patch_entries(files, direction)))
    }
}

fn append_bytes(output: &mut Vec<u8>, bytes: &[u8])
    ensures
        final(output)@ == old(output)@ + bytes@,
{
    let ghost before = output@;
    let mut i: usize = 0;
    assert(before + bytes@.take(0) =~= before);
    while i < bytes.len()
        invariant
            i <= bytes.len(),
            output@ == before + bytes@.take(i as int),
        decreases bytes.len() - i,
    {
        output.push(bytes[i]);
        assert(bytes@.take(i + 1) =~= bytes@.take(i as int).push(bytes@[i as int]));
        assert(output@ =~= before + bytes@.take(i + 1));
        i = i + 1;
    }
    assert(bytes@.take(i as int) =~= bytes@);
}

fn push_bytes(output: &mut Vec<u8>, bytes: &[u8])
    ensures
        final(output)@ == old(output)@ + sized(bytes@),
{
    let ghost before = output@;
    push_number(output, bytes.len() as u64, 8);
    append_bytes(output, bytes);
    assert(output@ =~= before + sized(bytes@));
}

fn push_flag(output: &mut Vec<u8>, flag: bool)
    ensures
        final(output)@ == old(output)@ + flag_byte(flag),
{
    let ghost before = output@;
    if flag {
        output.push(1);
    } else {
        output.push(0);
    }
    assert(output@ =~= before + flag_byte(flag));
}

fn push_patch_file(
    output: &mut Vec<u8>,
    path: &str,
    expected_present: bool,
    expected_digest: &IntentContentDigest,
    target: &Option<Vec<u8>>,
)
    ensures
        final(output)@ == old(output)@ + patch_file_bytes(
            ExactIntentPatchFileV1View {
                path: path@,
                expected_present,
                expected_digest: expected_digest.deep_view(),
                target: target.deep_view(),
            },
        ),
{
    let ghost before = output@;
    push_bytes(output, path.as_bytes());
    push_flag(output, expected_present);
    push_bytes(output, expected_digest.as_str().as_bytes());
    match target {
        Some(bytes) => {
            push_flag(output, true);
            push_bytes(output, bytes.as_slice());
            assert(bytes.deep_view() =~= bytes@);
        },
        None => {
            push_flag(output, false);
        },
    }
    assert(output@ =~= before + patch_file_bytes(
        ExactIntentPatchFileV1View {
            path: path@,
            expected_present,
            expected_digest: expected_digest.deep_view(),
            target: target.deep_view(),
        },
    ));
}

proof fn lemma_files_bytes_push(files: Seq<ExactIntentPatchFileV1View>, f: ExactIntentPatchFileV1View)
    ensures
        patch_files_bytes(files.push(f)) == patch_files_bytes(files) + patch_file_bytes(f),
    decreases files.len(),
{
    if files.len() == 0 {
        assert(files.push(f).drop_first() =~= Seq::empty());
        assert(patch_files_bytes(Seq::empty()) =~= Seq::empty());
        assert(patch_files_bytes(files.push(f)) =~= patch_files_bytes(files) + patch_file_bytes(f));
    } else {
        assert(files.push(f).drop_first() =~= files.drop_first().push(f));
        lemma_files_bytes_push(files.drop_first(), f);
        assert(patch_files_bytes(files.push(f)) =~= patch_files_bytes(files) + patch_file_bytes(f));
    }
}

/// Writes the patch of changed files.
pub fn encode_patch(files: &Vec<MaterializedIntentFile>, direction: PatchDirection) -> (r: Result<
    Vec<u8>,
    KernelError,
>)
    ensures
        match encoded_patch(files.deep_view(), direction) {
            Ok(bytes) => r matches Ok(v) && v@ == bytes,
            Err(m) => r matches Err(e) && e.deep_view() == m,
        },
{
    if files.len() as u64 > u32::MAX as u64 {
        return Err(KernelError::new("Intent artifact contains too many files"));
    }
    let ghost all = patch_entries(files.deep_view(), direction);
    let mut output: Vec<u8> = Vec::new();
    append_bytes(&mut output, INTENT_PATCH_MAGIC.as_bytes());
    push_number(&mut output, files.len() as u64, 4);
    let ghost head = output@;
    let mut i: usize = 0;
    assert(head =~= encode_utf8(INTENT_PATCH_MAGIC@) + big_endian(all.len(), 4));
    assert(all.take(0) =~= Seq::empty());
    assert(head =~= head + patch_files_bytes(all.take(0)));
    while i < files.len()
        invariant
            i <= files.len(),
            all == patch_entries(files.deep_view(), direction),
            output@ == head + patch_files_bytes(all.take(i as int)),
        decreases files.len() - i,
    {
        let f = &files[i];
        assert(files.deep_view()[i as int] == f.deep_view());
        let ghost before = output@;
        match direction {
            PatchDirection::Forward => {
                push_patch_file(
                    &mut output,
                    f.path.as_str(),
                    f.before.is_some(),
                    &f.before_digest,
                    &f.after,
                );
            },
            PatchDirection::Reverse => {
                push_patch_file(
                    &mut output,
                    f.path.as_str(),
                    f.after.is_some(),
                    &f.after_digest,
                    &f.before,
                );
            },
        }
        proof {
            assert(output@ == before + patch_file_bytes(all[i as int]));
            lemma_files_bytes_push(all.take(i as int), all[i as int]);
            assert(all.take(i + 1) =~= all.take(i as int).push(all[i as int]));
            assert(output@ =~= head + patch_files_bytes(all.take(i + 1)));
        }
        i = i + 1;
    }
    assert(all.take(i as int) =~= all);
    assert(output@ =~= patch_bytes(all));
    Ok(output)
}

/// A hunk: what changed in one file, and the layer it belongs to.
pub open spec fn hunk_bytes(f: MaterializedIntentFileView, core_digest: Seq<char>) -> Seq<u8> {
    encode_utf8(INTENT_HUNK_MAGIC@) + sized(encode_utf8(f.path)) + sized(encode_utf8(core_digest))
        + big_endian(f.old_range.start as nat, 8) + big_endian(f.old_range.end as nat, 8)
        + big_endian(f.new_range.start as nat, 8) + big_endian(f.new_range.end as nat, 8) + sized(
        f.old_changed_bytes,
    ) + sized(f.new_changed_bytes)
}

/// Writes the hunk of a changed file.
pub fn encode_hunk(f: &MaterializedIntentFile, core_digest: &IntentDigest) -> (r: Vec<u8>)
    ensures
        r@ == hunk_bytes(f.deep_view(), core_digest.deep_view()),
{
    let mut output: Vec<u8> = Vec::new();
    append_bytes(&mut output, INTENT_HUNK_MAGIC.as_bytes());
    push_bytes(&mut output, f.path.as_str().as_bytes());
    push_bytes(&mut output, core_digest.as_str().as_bytes());
    push_number(&mut output, f.old_range.start, 8);
    push_number(&mut output, f.old_range.end, 8);
    push_number(&mut output, f.new_range.start, 8);
    push_number(&mut output, f.new_range.end, 8);
    push_bytes(&mut output, f.old_changed_bytes.as_slice());
    push_bytes(&mut output, f.new_changed_bytes.as_slice());
    assert(f.old_changed_bytes.deep_view() =~= f.old_changed_bytes@);
    assert(f.new_changed_bytes.deep_view() =~= f.new_changed_bytes@);
    assert(output@ =~= hunk_bytes(f.deep_view(), core_digest.deep_view()));
    output
}

// Reading.

/// Bytes that were read, and the rest behind them.
#[verifier::ext_equal]
pub struct Reading<T> {
    /// What was read.
    pub value: T,
    /// What is left.
    pub rest: Seq<u8>,
}

/// Reads the next `n` bytes.
pub open spec fn read_exact(s: Seq<u8>, n: nat) -> Result<Reading<Seq<u8>>, Seq<char>> {
    if s.len() < n {
        Err("Intent patch is truncated"@)
    } else {
        Ok(Reading { value: s.take(n as int), rest: s.skip(n as int) })
    }
}

/// Reads a number of `k` digits.
pub open spec fn read_number(s: Seq<u8>, k: nat) -> Result<Reading<nat>, Seq<char>> {
    match read_exact(s, k) {
        Err(m) => Err(m),
        Ok(r) => Ok(Reading { value: number_of(r.value), rest: r.rest }),
    }
}

/// Reads a byte string behind its length, of at most `maximum` bytes.
#[verifier::opaque]
pub open spec fn read_sized(s: Seq<u8>, maximum: nat) -> Result<Reading<Seq<u8>>, Seq<char>> {
    match read_number(s, 8) {
        Err(m) => Err(m),
        Ok(r) => if r.value > usize::MAX {
            Err("Intent patch length cannot fit this platform"@)
        } else if r.value > maximum {
            Err("Intent patch field exceeds its bounded size"@)
        } else {
            read_exact(r.rest, r.value)
        },
    }
}

/// Reads a text behind its length.
#[verifier::opaque]
pub open spec fn read_text(s: Seq<u8>, maximum: nat, message: Seq<char>) -> Result<
    Reading<Seq<char>>,
    Seq<char>,
> {
    match read_sized(s, maximum) {
        Err(m) => Err(m),
        Ok(r) => if valid_utf8(r.value) {
            Ok(Reading { value: decode_utf8(r.value), rest: r.rest })
        } else {
            Err(message)
        },
    }
}

/// Reads a flag.
pub open spec fn read_flag(s: Seq<u8>) -> Result<Reading<bool>, Seq<char>> {
    match read_exact(s, 1) {
        Err(m) => Err(m),
        Ok(r) => if r.value[0] == 0 {
            Ok(Reading { value: false, rest: r.rest })
        } else if r.value[0] == 1 {
            Ok(Reading { value: true, rest: r.rest })
        } else {
            Err("Intent patch contains an invalid presence flag"@)
        },
    }
}

/// The check of the text of a content digest.
#[verifier::opaque]
pub open spec fn content_digest_verdict(text: Seq<char>) -> Result<Seq<char>, Seq<char>> {
    digest_verdict(
        "sha256:"@,
        text,
        "intent content digest must use sha256:"@,
        "intent content digest must contain a 64-character hexadecimal sha256 digest"@,
    )
}

/// Reads an optional byte string.
#[verifier::opaque]
pub open spec fn read_optional(s: Seq<u8>) -> Result<Reading<Option<Seq<u8>>>, Seq<char>> {
    match read_flag(s) {
        Err(m) => Err(m),
        Ok(flag) => if !flag.value {
            Ok(Reading { value: None, rest: flag.rest })
        } else {
            match read_sized(flag.rest, MAX_WORKSPACE_SNAPSHOT_FILE_BYTES as nat) {
                Err(m) => Err(m),
                Ok(r) => Ok(Reading { value: Some(r.value), rest: r.rest }),
            }
        },
    }
}

/// The paths of files.
pub open spec fn patch_paths(files: Seq<ExactIntentPatchFileV1View>) -> Seq<Seq<char>> {
    Seq::new(files.len(), |i: int| files[i].path)
}

/// Reads one file of a patch, behind the files that were read before.
pub open spec fn read_patch_file(s: Seq<u8>, before: Seq<ExactIntentPatchFileV1View>) -> Result<
    Reading<ExactIntentPatchFileV1View>,
    Seq<char>,
> {
    match read_text(
        s,
        MAX_INTENT_PATCH_PATH_BYTES as nat,
        "Intent patch path is not UTF-8"@,
    ) {
        Err(m) => Err(m),
        Ok(path) => if !is_plain_relative_path(path.value) || patch_paths(before).contains(
            path.value,
        ) {
            Err("Intent patch contains an invalid or duplicate path"@)
        } else {
            match read_flag(path.rest) {
                Err(m) => Err(m),
                Ok(present) => match read_text(
                    present.rest,
                    MAX_INTENT_PATCH_DIGEST_BYTES as nat,
                    "Intent patch expected digest is not UTF-8"@,
                ) {
                    Err(m) => Err(m),
                    Ok(digest) => match content_digest_verdict(digest.value) {
                        Err(m) => Err(m),
                        Ok(_) => match read_optional(digest.rest) {
                            Err(m) => Err(m),
                            Ok(target) => Ok(
                                Reading {
                                    value: ExactIntentPatchFileV1View {
                                        path: path.value,
                                        expected_present: present.value,
                                        expected_digest: digest.value,
                                        target: target.value,
                                    },
                                    rest: target.rest,
                                },
                            ),
                        },
                    },
                },
            }
        },
    }
}

/// Reads `n` more files of a patch.
pub open spec fn read_patch_files(
    s: Seq<u8>,
    before: Seq<ExactIntentPatchFileV1View>,
    n: nat,
) -> Result<Reading<Seq<ExactIntentPatchFileV1View>>, Seq<char>>
    decreases n,
{
    if n == 0 {
        Ok(Reading { value: before, rest: s })
    } else {
        match read_patch_file(s, before) {
            Err(m) => Err(m),
            Ok(r) => read_patch_files(r.rest, before.push(r.value), (n - 1) as nat),
        }
    }
}

/// Reads a patch: nothing may be left behind it.
pub open spec fn read_patch(s: Seq<u8>) -> Result<Seq<ExactIntentPatchFileV1View>, Seq<char>> {
    match read_exact(s, encode_utf8(INTENT_PATCH_MAGIC@).len()) {
        Err(m) => Err(m),
        Ok(magic) => if magic.value != encode_utf8(INTENT_PATCH_MAGIC@) {
            Err("Intent patch has an invalid format marker"@)
        } else {
            match read_number(magic.rest, 4) {
                Err(m) => Err(m),
                Ok(count) => if count.value == 0 || count.value > MAX_INTENT_PATCH_FILES {
                    Err("Intent patch file count is outside the supported range"@)
                } else {
                    match read_patch_files(count.rest, Seq::empty(), count.value) {
                        Err(m) => Err(m),
                        Ok(r) => if r.rest.len() > 0 {
                            Err("Intent patch contains trailing bytes"@)
                        } else {
                            Ok(r.value)
                        },
                    }
                },
            }
        },
    }
}

/// The result of reading at a position: the value that was read, and the position behind it.
spec fn reads<T>(bytes: Seq<u8>, r: Result<(T, usize), KernelError>, expected: Result<Reading<T>, Seq<char>>) -> bool {
    match expected {
        Ok(x) => r matches Ok(y) && y.0 == x.value && y.1 <= bytes.len() && x.rest == bytes.skip(
            y.1 as int,
        ),
        Err(m) => r matches Err(e) && e.deep_view() == m,
    }
}

fn take_exact(bytes: &[u8], at: usize, n: usize) -> (r: Result<usize, KernelError>)
    requires
        at <= bytes.len(),
    ensures
        match read_exact(bytes@.skip(at as int), n as nat) {
            Ok(x) => r matches Ok(end) && end == at + n && end <= bytes.len() && x.value
                == bytes@.subrange(at as int, end as int) && x.rest == bytes@.skip(end as int),
            Err(m) => r matches Err(e) && e.deep_view() == m,
        },
{
    if bytes.len() - at < n {
        return Err(KernelError::new("Intent patch is truncated"));
    }
    let end: usize = at + n;
    assert(bytes@.skip(at as int).take(n as int) =~= bytes@.subrange(at as int, end as int));
    assert(bytes@.skip(at as int).skip(n as int) =~= bytes@.skip(end as int));
    Ok(end)
}

fn take_number(bytes: &[u8], at: usize, digits: usize) -> (r: Result<(u64, usize), KernelError>)
    requires
        at <= bytes.len(),
        digits <= 8,
    ensures
        match read_number(bytes@.skip(at as int), digits as nat) {
            Ok(x) => r matches Ok(y) && y.0 == x.value && y.1 <= bytes.len() && x.rest
                == bytes@.skip(y.1 as int),
            Err(m) => r matches Err(e) && e.deep_view() == m,
        },
{
    let end = take_exact(bytes, at, digits)?;
    let mut value: u64 = 0;
    let mut i: usize = at;
    assert(bytes@.subrange(at as int, at as int) =~= Seq::empty());
    while i < end
        invariant
            at <= i <= end <= bytes.len(),
            end - at <= 8,
            value == number_of(bytes@.subrange(at as int, i as int)),
        decreases end - i,
    {
        let ghost so_far = bytes@.subrange(at as int, i as int);
        let ghost next = bytes@.subrange(at as int, i + 1);
        proof {
            lemma_number_bound(so_far);
            lemma_powers_grow(so_far.len(), 7);
            lemma_powers();
            assert(next.drop_last() =~= so_far);
        }
        value = value * 256 + bytes[i] as u64;
        i = i + 1;
    }
    Ok((value, end))
}

proof fn lemma_powers_grow(a: nat, b: nat)
    requires
        a <= b,
    ensures
        powers(a) <= powers(b),
    decreases b,
{
    if a < b {
        lemma_powers_grow(a, (b - 1) as nat);
    }
}

fn copy_range(bytes: &[u8], from: usize, to: usize) -> (r: Vec<u8>)
    requires
        from <= to <= bytes.len(),
    ensures
        r@ == bytes@.subrange(from as int, to as int),
{
    let mut r: Vec<u8> = Vec::new();
    let mut i: usize = from;
    while i < to
        invariant
            from <= i <= to <= bytes.len(),
            r@ == bytes@.subrange(from as int, i as int),
        decreases to - i,
    {
        r.push(bytes[i]);
        assert(bytes@.subrange(from as int, i as int).push(bytes@[i as int]) =~= bytes@.subrange(
            from as int,
            i + 1,
        ));
        i = i + 1;
    }
    r
}

fn take_sized(bytes: &[u8], at: usize, maximum: usize) -> (r: Result<(Vec<u8>, usize), KernelError>)
    requires
        at <= bytes.len(),
    ensures
        match read_sized(bytes@.skip(at as int), maximum as nat) {
            Ok(x) => r matches Ok(y) && y.0@ == x.value && y.1 <= bytes.len() && x.rest
                == bytes@.skip(y.1 as int),
            Err(m) => r matches Err(e) && e.deep_view() == m,
        },
{
    proof {
        reveal(read_sized);
    }
    let (length, start) = take_number(bytes, at, 8)?;
    if length > usize::MAX as u64 {
        return Err(KernelError::new("Intent patch length cannot fit this platform"));
    }
    if length > maximum as u64 {
        return Err(KernelError::new("Intent patch field exceeds its bounded size"));
    }
    let end = take_exact(bytes, start, length as usize)?;
    Ok((copy_range(bytes, start, end), end))
}

fn take_text(bytes: &[u8], at: usize, maximum: usize, message: &str) -> (r: Result<
    (String, usize),
    KernelError,
>)
    requires
        at <= bytes.len(),
    ensures
        match read_text(bytes@.skip(at as int), maximum as nat, message@) {
            Ok(x) => r matches Ok(y) && y.0@ == x.value && y.1 <= bytes.len() && x.rest
                == bytes@.skip(y.1 as int),
            Err(m) => r matches Err(e) && e.deep_view() == m,
        },
{
    proof {
        reveal(read_text);
    }
    let (raw, end) = take_sized(bytes, at, maximum)?;
    match utf8_text(raw.as_slice()) {
        Some(text) => Ok((text, end)),
        None => Err(KernelError::new(message)),
    }
}

fn take_flag(bytes: &[u8], at: usize) -> (r: Result<(bool, usize), KernelError>)
    requires
        at <= bytes.len(),
    ensures
        reads(bytes@, r, read_flag(bytes@.skip(at as int))),
{
    let end = take_exact(bytes, at, 1)?;
    assert(bytes@.subrange(at as int, end as int)[0] == bytes@[at as int]);
    if bytes[at] == 0 {
        Ok((false, end))
    } else if bytes[at] == 1 {
        Ok((true, end))
    } else {
        Err(KernelError::new("Intent patch contains an invalid presence flag"))
    }
}

fn take_optional(bytes: &[u8], at: usize) -> (r: Result<(Option<Vec<u8>>, usize), KernelError>)
    requires
        at <= bytes.len(),
    ensures
        match read_optional(bytes@.skip(at as int)) {
            Ok(x) => r matches Ok(y) && y.0.deep_view() == x.value && y.1 <= bytes.len() && x.rest
                == bytes@.skip(y.1 as int),
            Err(m) => r matches Err(e) && e.deep_view() == m,
        },
{
    proof {
        reveal(read_optional);
    }
    let (present, start) = take_flag(bytes, at)?;
    if !present {
        return Ok((None, start));
    }
    let (raw, end) = take_sized(bytes, start, MAX_WORKSPACE_SNAPSHOT_FILE_BYTES as usize)?;
    assert(raw.deep_view() =~= raw@);
    Ok((Some(raw), end))
}

fn has_path(files: &Vec<ExactIntentPatchFileV1>, path: &String) -> (r: bool)
    ensures
        r == patch_paths(files.deep_view()).contains(path@),
{
    let ghost paths = patch_paths(files.deep_view());
    let mut i: usize = 0;
    while i < files.len()
        invariant
            i <= files.len(),
            paths == patch_paths(files.deep_view()),
            forall|j: int| 0 <= j < i ==> paths[j] != path@,
        decreases files.len() - i,
    {
        assert(files.deep_view()[i as int] == files@[i as int].deep_view());
        assert(paths[i as int] == files@[i as int].path@);
        if files[i].path == *path {
            return true;
        }
        i = i + 1;
    }
    false
}

fn take_patch_file(bytes: &[u8], at: usize, before: &Vec<ExactIntentPatchFileV1>) -> (r: Result<
    (ExactIntentPatchFileV1, usize),
    KernelError,
>)
    requires
        at <= bytes.len(),
    ensures
        match read_patch_file(bytes@.skip(at as int), before.deep_view()) {
            Ok(x) => r matches Ok(y) && y.0.deep_view() == x.value && y.1 <= bytes.len() && x.rest
                == bytes@.skip(y.1 as int),
            Err(m) => r matches Err(e) && e.deep_view() == m,
        },
{
    proof {
        reveal(content_digest_verdict);
    }
    let (path, at_flag) = take_text(
        bytes,
        at,
        MAX_INTENT_PATCH_PATH_BYTES,
        "Intent patch path is not UTF-8",
    )?;
    if !plain_relative_path(path.as_str()) || has_path(before, &path) {
        return Err(KernelError::new("Intent patch contains an invalid or duplicate path"));
    }
    let (expected_present, at_digest) = take_flag(bytes, at_flag)?;
    let (text, at_target) = take_text(
        bytes,
        at_digest,
        MAX_INTENT_PATCH_DIGEST_BYTES,
        "Intent patch expected digest is not UTF-8",
    )?;
    let expected_digest = IntentContentDigest::new(text)?;
    let (target, end) = take_optional(bytes, at_target)?;
    Ok((ExactIntentPatchFileV1 { path, expected_present, expected_digest, target }, end))
}

/// Decodes a patch. It rejects a wrong format marker, too many files, unsafe or repeated paths, invalid
/// flags or digests, fields over their bounds, and bytes behind the last file.
pub fn decode_exact_intent_patch(bytes: &[u8]) -> (r: Result<
    Vec<ExactIntentPatchFileV1>,
    KernelError,
>)
    ensures
        outcome(r) == read_patch(bytes@),
{
    let magic = INTENT_PATCH_MAGIC.as_bytes();
    assert(bytes@.skip(0) =~= bytes@);
    let at_count = take_exact(bytes, 0, magic.len())?;
    let mut i: usize = 0;
    while i < magic.len()
        invariant
            i <= magic.len() == at_count <= bytes.len(),
            magic@ == encode_utf8(INTENT_PATCH_MAGIC@),
            read_exact(bytes@, magic@.len()) matches Ok(x) && x.value == bytes@.subrange(
                0,
                at_count as int,
            ),
            forall|j: int| 0 <= j < i ==> bytes@[j] == magic@[j],
        decreases magic.len() - i,
    {
        if bytes[i] != magic[i] {
            assert(bytes@.subrange(0, at_count as int)[i as int] != magic@[i as int]);
            return Err(KernelError::new("Intent patch has an invalid format marker"));
        }
        i = i + 1;
    }
    assert(bytes@.subrange(0, at_count as int) =~= magic@);
    let (count, at_files) = take_number(bytes, at_count, 4)?;
    if count == 0 || count > MAX_INTENT_PATCH_FILES as u64 {
        return Err(KernelError::new("Intent patch file count is outside the supported range"));
    }
    let mut files: Vec<ExactIntentPatchFileV1> = Vec::new();
    let mut at = at_files;
    let mut left: u64 = count;
    assert(files.deep_view() =~= Seq::empty());
    let ghost expected = read_patch_files(bytes@.skip(at_files as int), Seq::empty(), count as nat);
    while left > 0
        invariant
            at <= bytes.len(),
            expected == read_patch_files(bytes@.skip(at as int), files.deep_view(), left as nat),
            read_patch(bytes@) == match expected {
                Err(m) => Err(m),
                Ok(x) => if x.rest.len() > 0 {
                    Err("Intent patch contains trailing bytes"@)
                } else {
                    Ok(x.value)
                },
            },
        decreases left,
    {
        let (file, end) = take_patch_file(bytes, at, &files)?;
        let ghost before = files;
        files.push(file);
        proof {
            lemma_push_view(before, file, files);
        }
        at = end;
        left = left - 1;
    }
    if at < bytes.len() {
        return Err(KernelError::new("Intent patch contains trailing bytes"));
    }
    Ok(files)
}

// Where two contents differ.

/// How many bytes two contents have in common at their beginning.
pub open spec fn common_prefix(a: Seq<u8>, b: Seq<u8>) -> nat
    decreases a.len(),
{
    if a.len() == 0 || b.len() == 0 || a[0] != b[0] {
        0
    } else {
        1 + common_prefix(a.drop_first(), b.drop_first())
    }
}

/// The number of bytes, at most `n`, after which both contents can be cut between two characters.
pub open spec fn cut_after(a: Seq<u8>, b: Seq<u8>, n: nat) -> nat
    decreases n,
{
    if n == 0 || (is_char_boundary(a, n as int) && is_char_boundary(b, n as int)) {
        n
    } else {
        cut_after(a, b, (n - 1) as nat)
    }
}

/// How many bytes, at most `n`, two contents have in common at their end.
pub open spec fn common_suffix(a: Seq<u8>, b: Seq<u8>, n: nat) -> nat
    decreases n,
{
    if n == 0 || a.len() == 0 || b.len() == 0 || a.last() != b.last() {
        0
    } else {
        1 + common_suffix(a.drop_last(), b.drop_last(), (n - 1) as nat)
    }
}

/// The number of bytes, at most `n`, before whose end both contents can be cut between two characters.
pub open spec fn cut_before_end(a: Seq<u8>, b: Seq<u8>, n: nat) -> nat
    decreases n,
{
    if n == 0 || (is_char_boundary(a, a.len() - n) && is_char_boundary(b, b.len() - n)) {
        n
    } else {
        cut_before_end(a, b, (n - 1) as nat)
    }
}

/// The length of the unchanged beginning.
pub open spec fn kept_prefix(before: Seq<u8>, after: Seq<u8>) -> nat {
    cut_after(before, after, common_prefix(before, after))
}

/// The shorter of two lengths.
pub open spec fn shorter(a: nat, b: nat) -> nat {
    if a <= b {
        a
    } else {
        b
    }
}

/// The length of the unchanged end.
pub open spec fn kept_suffix(before: Seq<u8>, after: Seq<u8>) -> nat {
    let room = (shorter(before.len(), after.len()) - kept_prefix(before, after)) as nat;
    cut_before_end(before, after, common_suffix(before, after, room))
}

/// Where two different texts differ, cut between characters: the range of the first that is replaced,
/// and the range of the second that replaces it.
pub open spec fn changed_ranges(before: Seq<u8>, after: Seq<u8>) -> Result<
    (IntentByteRangeV1View, IntentByteRangeV1View),
    Seq<char>,
> {
    if before == after {
        Err("Intent layer cannot materialize a no-op file delta"@)
    } else if !valid_utf8(before) {
        Err("Intent layer before content is not UTF-8"@)
    } else if !valid_utf8(after) {
        Err("Intent layer after content is not UTF-8"@)
    } else {
        let p = kept_prefix(before, after);
        let s = kept_suffix(before, after);
        Ok(
            (
                IntentByteRangeV1View { start: p as u64, end: (before.len() - s) as u64 },
                IntentByteRangeV1View { start: p as u64, end: (after.len() - s) as u64 },
            ),
        )
    }
}

proof fn lemma_common_prefix(a: Seq<u8>, b: Seq<u8>)
    ensures
        common_prefix(a, b) <= a.len(),
        common_prefix(a, b) <= b.len(),
        a.take(common_prefix(a, b) as int) == b.take(common_prefix(a, b) as int),
    decreases a.len(),
{
    let n = common_prefix(a, b);
    if a.len() == 0 || b.len() == 0 || a[0] != b[0] {
        assert(a.take(0) =~= b.take(0));
    } else {
        lemma_common_prefix(a.drop_first(), b.drop_first());
        assert forall|i: int| 0 <= i < n implies a[i] == b[i] by {
            if i > 0 {
                assert(a.drop_first().take(n - 1)[i - 1] == b.drop_first().take(n - 1)[i - 1]);
            }
        }
        assert(a.take(n as int) =~= b.take(n as int));
    }
}

proof fn lemma_cut_after(a: Seq<u8>, b: Seq<u8>, n: nat)
    ensures
        cut_after(a, b, n) <= n,
    decreases n,
{
    if n > 0 && !(is_char_boundary(a, n as int) && is_char_boundary(b, n as int)) {
        lemma_cut_after(a, b, (n - 1) as nat);
    }
}

proof fn lemma_common_suffix(a: Seq<u8>, b: Seq<u8>, n: nat)
    ensures
        common_suffix(a, b, n) <= n,
        common_suffix(a, b, n) <= a.len(),
        common_suffix(a, b, n) <= b.len(),
        a.skip(a.len() - common_suffix(a, b, n)) == b.skip(b.len() - common_suffix(a, b, n)),
    decreases n,
{
    let k = common_suffix(a, b, n);
    if n == 0 || a.len() == 0 || b.len() == 0 || a.last() != b.last() {
        assert(a.skip(a.len() as int) =~= b.skip(b.len() as int));
    } else {
        let x = a.drop_last();
        let y = b.drop_last();
        lemma_common_suffix(x, y, (n - 1) as nat);
        assert forall|i: int| 0 <= i < k implies #[trigger] a.skip(a.len() - k)[i] == b.skip(
            b.len() - k,
        )[i] by {
            if i < k - 1 {
                assert(x.skip(x.len() - (k - 1))[i] == y.skip(y.len() - (k - 1))[i]);
            }
        }
        assert(a.skip(a.len() - k) =~= b.skip(b.len() - k));
    }
}

proof fn lemma_cut_before_end(a: Seq<u8>, b: Seq<u8>, n: nat)
    ensures
        cut_before_end(a, b, n) <= n,
    decreases n,
{
    if n > 0 && !(is_char_boundary(a, a.len() - n) && is_char_boundary(b, b.len() - n)) {
        lemma_cut_before_end(a, b, (n - 1) as nat);
    }
}

/// The unchanged beginning and the unchanged end of two contents are equal, and do not overlap.
pub proof fn lemma_kept(before: Seq<u8>, after: Seq<u8>)
    ensures
        ({
            let p = kept_prefix(before, after);
            let s = kept_suffix(before, after);
            &&& p + s <= before.len()
            &&& p + s <= after.len()
            &&& before.take(p as int) == after.take(p as int)
            &&& before.skip(before.len() - s) == after.skip(after.len() - s)
        }),
{
    let c = common_prefix(before, after);
    let p = kept_prefix(before, after);
    lemma_common_prefix(before, after);
    lemma_cut_after(before, after, c);
    assert(before.take(p as int) =~= before.take(c as int).take(p as int));
    assert(after.take(p as int) =~= after.take(c as int).take(p as int));
    let room = (shorter(before.len(), after.len()) - p) as nat;
    let k = common_suffix(before, after, room);
    let s = kept_suffix(before, after);
    lemma_common_suffix(before, after, room);
    lemma_cut_before_end(before, after, k);
    assert(before.skip(before.len() - s) =~= before.skip(before.len() - k).skip(k - s));
    assert(after.skip(after.len() - s) =~= after.skip(after.len() - k).skip(k - s));
}

fn count_common_prefix(a: &[u8], b: &[u8]) -> (n: usize)
    ensures
        n == common_prefix(a@, b@),
{
    let mut n: usize = 0;
    assert(a@.skip(0) =~= a@);
    assert(b@.skip(0) =~= b@);
    while n < a.len() && n < b.len() && a[n] == b[n]
        invariant
            n <= a.len(),
            n <= b.len(),
            common_prefix(a@, b@) == n + common_prefix(a@.skip(n as int), b@.skip(n as int)),
        decreases a.len() - n,
    {
        assert(a@.skip(n as int).drop_first() =~= a@.skip(n + 1));
        assert(b@.skip(n as int).drop_first() =~= b@.skip(n + 1));
        n = n + 1;
    }
    n
}

fn count_common_suffix(a: &[u8], b: &[u8], most: usize) -> (n: usize)
    requires
        most <= a.len(),
        most <= b.len(),
    ensures
        n == common_suffix(a@, b@, most as nat),
{
    let mut n: usize = 0;
    assert(a@.take(a@.len() as int) =~= a@);
    assert(b@.take(b@.len() as int) =~= b@);
    while n < most && a[a.len() - 1 - n] == b[b.len() - 1 - n]
        invariant
            n <= most <= a.len(),
            most <= b.len(),
            common_suffix(a@, b@, most as nat) == n + common_suffix(
                a@.take(a@.len() - n),
                b@.take(b@.len() - n),
                (most - n) as nat,
            ),
        decreases most - n,
    {
        assert(a@.take(a@.len() - n).drop_last() =~= a@.take(a@.len() - n - 1));
        assert(b@.take(b@.len() - n).drop_last() =~= b@.take(b@.len() - n - 1));
        n = n + 1;
    }
    n
}

/// The changed ranges lie within the contents that they are ranges of.
pub proof fn lemma_ranges_fit(before: Seq<u8>, after: Seq<u8>)
    requires
        before.len() <= u64::MAX,
        after.len() <= u64::MAX,
    ensures
        changed_ranges(before, after) matches Ok((a, b)) ==> a.start <= a.end <= before.len()
            && b.start <= b.end <= after.len(),
{
    lemma_kept(before, after);
}

/// Finds where two texts differ, cut between characters.
pub fn canonical_changed_ranges(before: &[u8], after: &[u8]) -> (r: Result<
    (IntentByteRangeV1, IntentByteRangeV1),
    KernelError,
>)
    ensures
        match changed_ranges(before@, after@) {
            Ok(x) => r matches Ok(y) && y.0.deep_view() == x.0 && y.1.deep_view() == x.1,
            Err(m) => r matches Err(e) && e.deep_view() == m,
        },
{
    let common = count_common_prefix(before, after);
    proof {
        lemma_common_prefix(before@, after@);
        lemma_kept(before@, after@);
    }
    if common == before.len() && common == after.len() {
        assert(before@.take(common as int) =~= before@);
        assert(after@.take(common as int) =~= after@);
        return Err(KernelError::new("Intent layer cannot materialize a no-op file delta"));
    }
    proof {
        if before@ == after@ {
            lemma_equal_prefix(before@);
        }
    }
    let before_text = match utf8_text(before) {
        None => {
            return Err(KernelError::new("Intent layer before content is not UTF-8"));
        },
        Some(text) => text,
    };
    let after_text = match utf8_text(after) {
        None => {
            return Err(KernelError::new("Intent layer after content is not UTF-8"));
        },
        Some(text) => text,
    };
    proof {
        vstd::utf8::decode_utf8_encode_utf8(before@);
        vstd::utf8::decode_utf8_encode_utf8(after@);
        vstd::utf8::is_char_boundary_start_end_of_seq(before@);
        vstd::utf8::is_char_boundary_start_end_of_seq(after@);
    }
    let mut prefix: usize = common;
    while !before_text.as_str().is_char_boundary(prefix) || !after_text.as_str().is_char_boundary(
        prefix,
    )
        invariant
            prefix <= common <= before.len(),
            common <= after.len(),
            valid_utf8(before@),
            valid_utf8(after@),
            before_text@ == decode_utf8(before@),
            after_text@ == decode_utf8(after@),
            encode_utf8(before_text@) == before@,
            encode_utf8(after_text@) == after@,
            is_char_boundary(before@, 0),
            is_char_boundary(after@, 0),
            kept_prefix(before@, after@) == cut_after(before@, after@, prefix as nat),
        decreases prefix,
    {
        prefix = prefix - 1;
    }
    let shortest: usize = if before.len() <= after.len() {
        before.len()
    } else {
        after.len()
    };
    let most: usize = shortest - prefix;
    let mut suffix: usize = count_common_suffix(before, after, most);
    proof {
        lemma_common_suffix(before@, after@, most as nat);
    }
    while !before_text.as_str().is_char_boundary(before.len() - suffix)
        || !after_text.as_str().is_char_boundary(after.len() - suffix)
        invariant
            suffix <= before.len(),
            suffix <= after.len(),
            valid_utf8(before@),
            valid_utf8(after@),
            encode_utf8(before_text@) == before@,
            encode_utf8(after_text@) == after@,
            is_char_boundary(before@, before@.len() as int),
            is_char_boundary(after@, after@.len() as int),
            kept_suffix(before@, after@) == cut_before_end(before@, after@, suffix as nat),
        decreases suffix,
    {
        suffix = suffix - 1;
    }
    Ok(
        (
            IntentByteRangeV1 { start: prefix as u64, end: (before.len() - suffix) as u64 },
            IntentByteRangeV1 { start: prefix as u64, end: (after.len() - suffix) as u64 },
        ),
    )
}

proof fn lemma_equal_prefix(a: Seq<u8>)
    ensures
        common_prefix(a, a) == a.len(),
    decreases a.len(),
{
    if a.len() > 0 {
        lemma_equal_prefix(a.drop_first());
    }
}

// Laws.

/// A patch can hold files: there is at least one and not too many, no path occurs twice, and each file
/// has a plain relative path, a digest and contents within their bounds.
pub open spec fn can_be_patched(files: Seq<ExactIntentPatchFileV1View>) -> bool {
    &&& 0 < files.len() <= MAX_INTENT_PATCH_FILES
    &&& distinct(patch_paths(files))
    &&& forall|i: int| 0 <= i < files.len() ==> fits_patch(#[trigger] files[i])
}

/// A file fits a patch.
pub open spec fn fits_patch(f: ExactIntentPatchFileV1View) -> bool {
    &&& is_plain_relative_path(f.path)
    &&& encode_utf8(f.path).len() <= MAX_INTENT_PATCH_PATH_BYTES
    &&& content_digest_verdict(f.expected_digest) is Ok
    &&& encode_utf8(f.expected_digest).len() <= MAX_INTENT_PATCH_DIGEST_BYTES
    &&& f.target matches Some(b) ==> b.len() <= MAX_WORKSPACE_SNAPSHOT_FILE_BYTES
}

proof fn lemma_read_sized_back(bytes: Seq<u8>, rest: Seq<u8>, maximum: nat)
    requires
        bytes.len() <= maximum <= usize::MAX,
    ensures
        read_sized(sized(bytes) + rest, maximum) == Ok::<Reading<Seq<u8>>, Seq<char>>(
            Reading { value: bytes, rest },
        ),
{
    reveal(read_sized);
    let s = sized(bytes) + rest;
    let digits = big_endian(bytes.len(), 8);
    lemma_big_endian_len(bytes.len(), 8);
    lemma_powers();
    lemma_number_of_digits(bytes.len(), 8);
    assert(s.take(8) =~= digits);
    assert(s.skip(8) =~= bytes + rest);
    assert((bytes + rest).take(bytes.len() as int) =~= bytes);
    assert((bytes + rest).skip(bytes.len() as int) =~= rest);
}

proof fn lemma_read_flag_back(flag: bool, rest: Seq<u8>)
    ensures
        read_flag(flag_byte(flag) + rest) == Ok::<Reading<bool>, Seq<char>>(
            Reading { value: flag, rest },
        ),
{
    let s = flag_byte(flag) + rest;
    assert(s.skip(1) =~= rest);
    assert(s.take(1)[0] == flag_byte(flag)[0]);
}

proof fn lemma_read_text_back(text: Seq<char>, rest: Seq<u8>, maximum: nat, message: Seq<char>)
    requires
        encode_utf8(text).len() <= maximum <= usize::MAX,
    ensures
        read_text(sized(encode_utf8(text)) + rest, maximum, message) == Ok::<
            Reading<Seq<char>>,
            Seq<char>,
        >(Reading { value: text, rest }),
{
    reveal(read_text);
    lemma_read_sized_back(encode_utf8(text), rest, maximum);
    vstd::utf8::encode_utf8_valid_utf8(text);
    vstd::utf8::encode_utf8_decode_utf8(text);
}

proof fn lemma_file_split(f: ExactIntentPatchFileV1View, rest: Seq<u8>)
    ensures
        patch_file_bytes(f) + rest == sized(encode_utf8(f.path)) + (flag_byte(f.expected_present) + (
        sized(encode_utf8(f.expected_digest)) + (optional_bytes(f.target) + rest))),
{
    let a = sized(encode_utf8(f.path));
    let b = flag_byte(f.expected_present);
    let c = sized(encode_utf8(f.expected_digest));
    let d = optional_bytes(f.target);
    assert(a + b + c + d + rest =~= a + (b + (c + (d + rest))));
}

proof fn lemma_read_optional_back(target: Option<Seq<u8>>, rest: Seq<u8>)
    requires
        target matches Some(b) ==> b.len() <= MAX_WORKSPACE_SNAPSHOT_FILE_BYTES,
        MAX_WORKSPACE_SNAPSHOT_FILE_BYTES <= usize::MAX,
    ensures
        read_optional(optional_bytes(target) + rest) == Ok::<
            Reading<Option<Seq<u8>>>,
            Seq<char>,
        >(Reading { value: target, rest }),
{
    reveal(read_optional);
    match target {
        Some(b) => {
            assert(optional_bytes(target) + rest =~= flag_byte(true) + (sized(b) + rest));
            lemma_read_flag_back(true, sized(b) + rest);
            lemma_read_sized_back(b, rest, MAX_WORKSPACE_SNAPSHOT_FILE_BYTES as nat);
        },
        None => {
            lemma_read_flag_back(false, rest);
        },
    }
}

proof fn lemma_read_file_back(
    f: ExactIntentPatchFileV1View,
    rest: Seq<u8>,
    before: Seq<ExactIntentPatchFileV1View>,
)
    requires
        fits_patch(f),
        !patch_paths(before).contains(f.path),
        MAX_WORKSPACE_SNAPSHOT_FILE_BYTES <= usize::MAX,
    ensures
        read_patch_file(patch_file_bytes(f) + rest, before) == Ok::<
            Reading<ExactIntentPatchFileV1View>,
            Seq<char>,
        >(Reading { value: f, rest }),
{
    let tail = optional_bytes(f.target) + rest;
    let digest = sized(encode_utf8(f.expected_digest)) + tail;
    let flag = flag_byte(f.expected_present) + digest;
    lemma_file_split(f, rest);
    lemma_read_text_back(
        f.path,
        flag,
        MAX_INTENT_PATCH_PATH_BYTES as nat,
        "Intent patch path is not UTF-8"@,
    );
    lemma_read_flag_back(f.expected_present, digest);
    lemma_read_text_back(
        f.expected_digest,
        tail,
        MAX_INTENT_PATCH_DIGEST_BYTES as nat,
        "Intent patch expected digest is not UTF-8"@,
    );
    lemma_read_optional_back(f.target, rest);
}

proof fn lemma_read_files_back(
    files: Seq<ExactIntentPatchFileV1View>,
    before: Seq<ExactIntentPatchFileV1View>,
)
    requires
        distinct(patch_paths(before + files)),
        forall|i: int| 0 <= i < files.len() ==> fits_patch(#[trigger] files[i]),
        MAX_WORKSPACE_SNAPSHOT_FILE_BYTES <= usize::MAX,
    ensures
        read_patch_files(patch_files_bytes(files), before, files.len()) == Ok::<
            Reading<Seq<ExactIntentPatchFileV1View>>,
            Seq<char>,
        >(Reading { value: before + files, rest: Seq::empty() }),
    decreases files.len(),
{
    if files.len() == 0 {
        assert(before + files =~= before);
    } else {
        let f = files[0];
        let others = files.drop_first();
        let paths = patch_paths(before + files);
        assert(!patch_paths(before).contains(f.path)) by {
            if patch_paths(before).contains(f.path) {
                let k = choose|k: int|
                    0 <= k < patch_paths(before).len() && patch_paths(before)[k] == f.path;
                assert(paths[k] == (before + files)[k].path);
                assert(paths[before.len() as int] == (before + files)[before.len() as int].path);
            }
        }
        lemma_read_file_back(f, patch_files_bytes(others), before);
        assert((before.push(f)) + others =~= before + files);
        assert forall|i: int| 0 <= i < others.len() implies fits_patch(#[trigger] others[i]) by {
            assert(others[i] == files[i + 1]);
        }
        lemma_read_files_back(others, before.push(f));
    }
}

/// Reading a patch gives back the files that were written.
pub proof fn law_patches_are_read_back(files: Seq<ExactIntentPatchFileV1View>)
    requires
        can_be_patched(files),
    ensures
        read_patch(patch_bytes(files)) == Ok::<Seq<ExactIntentPatchFileV1View>, Seq<char>>(files),
{
    let s = patch_bytes(files);
    let magic = encode_utf8(INTENT_PATCH_MAGIC@);
    let digits = big_endian(files.len(), 4);
    let tail = patch_files_bytes(files);
    lemma_big_endian_len(files.len(), 4);
    lemma_powers();
    lemma_number_of_digits(files.len(), 4);
    assert(s.take(magic.len() as int) =~= magic);
    assert(s.skip(magic.len() as int) =~= digits + tail);
    assert((digits + tail).take(4) =~= digits);
    assert((digits + tail).skip(4) =~= tail);
    assert(Seq::<ExactIntentPatchFileV1View>::empty() + files =~= files);
    lemma_read_files_back(files, Seq::empty());
}

proof fn lemma_sized_is_read(s: Seq<u8>, maximum: nat)
    ensures
        read_sized(s, maximum) matches Ok(r) ==> s == sized(r.value) + r.rest && r.value.len()
            <= maximum,
{
    reveal(read_sized);
    if let Ok(r) = read_sized(s, maximum) {
        lemma_digits_of_number(s.take(8));
        assert(s =~= sized(r.value) + r.rest);
    }
}

proof fn lemma_text_is_read(s: Seq<u8>, maximum: nat, message: Seq<char>)
    ensures
        read_text(s, maximum, message) matches Ok(r) ==> s == sized(encode_utf8(r.value)) + r.rest
            && encode_utf8(r.value).len() <= maximum,
{
    reveal(read_text);
    lemma_sized_is_read(s, maximum);
    if let Ok(r) = read_sized(s, maximum) {
        if valid_utf8(r.value) {
            vstd::utf8::decode_utf8_encode_utf8(r.value);
        }
    }
}

proof fn lemma_flag_is_read(s: Seq<u8>)
    ensures
        read_flag(s) matches Ok(r) ==> s == flag_byte(r.value) + r.rest,
{
    if let Ok(r) = read_flag(s) {
        assert(s =~= flag_byte(r.value) + r.rest);
    }
}

proof fn lemma_optional_is_read(s: Seq<u8>)
    ensures
        read_optional(s) matches Ok(r) ==> s == optional_bytes(r.value) + r.rest && (
        r.value matches Some(b) ==> b.len() <= MAX_WORKSPACE_SNAPSHOT_FILE_BYTES),
{
    reveal(read_optional);
    lemma_flag_is_read(s);
    if let Ok(flag) = read_flag(s) {
        lemma_sized_is_read(flag.rest, MAX_WORKSPACE_SNAPSHOT_FILE_BYTES as nat);
        if let Ok(r) = read_optional(s) {
            assert(s =~= optional_bytes(r.value) + r.rest);
        }
    }
}

proof fn lemma_file_is_read(s: Seq<u8>, before: Seq<ExactIntentPatchFileV1View>)
    ensures
        read_patch_file(s, before) matches Ok(r) ==> s == patch_file_bytes(r.value) + r.rest
            && fits_patch(r.value) && !patch_paths(before).contains(r.value.path),
{
    if let Ok(r) = read_patch_file(s, before) {
        let message = "Intent patch path is not UTF-8"@;
        lemma_text_is_read(s, MAX_INTENT_PATCH_PATH_BYTES as nat, message);
        let path = read_text(s, MAX_INTENT_PATCH_PATH_BYTES as nat, message)->Ok_0;
        lemma_flag_is_read(path.rest);
        let present = read_flag(path.rest)->Ok_0;
        let other = "Intent patch expected digest is not UTF-8"@;
        lemma_text_is_read(present.rest, MAX_INTENT_PATCH_DIGEST_BYTES as nat, other);
        let digest = read_text(present.rest, MAX_INTENT_PATCH_DIGEST_BYTES as nat, other)->Ok_0;
        lemma_optional_is_read(digest.rest);
        lemma_file_split(r.value, r.rest);
    }
}

proof fn lemma_paths_stay_distinct(
    before: Seq<ExactIntentPatchFileV1View>,
    f: ExactIntentPatchFileV1View,
)
    requires
        distinct(patch_paths(before)),
        !patch_paths(before).contains(f.path),
    ensures
        distinct(patch_paths(before.push(f))),
{
    let old_paths = patch_paths(before);
    let paths = patch_paths(before.push(f));
    assert(paths =~= old_paths.push(f.path));
    assert forall|i: int, j: int| 0 <= i < j < paths.len() implies #[trigger] paths[i]
        != #[trigger] paths[j] by {
        assert(paths[i] == old_paths[i]);
        if j < old_paths.len() {
            assert(paths[j] == old_paths[j]);
        }
    }
}

proof fn lemma_files_are_read(s: Seq<u8>, before: Seq<ExactIntentPatchFileV1View>, n: nat)
    requires
        distinct(patch_paths(before)),
    ensures
        read_patch_files(s, before, n) matches Ok(r) ==> read_further(s, before, n, r),
    decreases n,
{
    if n == 0 {
        assert(before.take(before.len() as int) =~= before);
        assert(before.skip(before.len() as int) =~= Seq::empty());
        assert(patch_files_bytes(Seq::empty()) =~= Seq::empty());
        assert(s =~= patch_files_bytes(Seq::empty()) + s);
    } else if let Ok(x) = read_patch_file(s, before) {
        lemma_file_is_read(s, before);
        let more = before.push(x.value);
        lemma_paths_stay_distinct(before, x.value);
        lemma_files_are_read(x.rest, more, (n - 1) as nat);
        if let Ok(r) = read_patch_files(s, before, n) {
            lemma_read_one_further(s, before, n, x, r);
        }
    }
}

proof fn lemma_read_files_count(s: Seq<u8>, before: Seq<ExactIntentPatchFileV1View>, n: nat)
    ensures
        read_patch_files(s, before, n) matches Ok(r) ==> r.value.len() == before.len() + n,
    decreases n,
{
    if n > 0 {
        if let Ok(x) = read_patch_file(s, before) {
            lemma_read_files_count(x.rest, before.push(x.value), (n - 1) as nat);
        }
    }
}

/// A patch that can be read has a file.
pub proof fn lemma_read_patches_have_files(s: Seq<u8>)
    ensures
        read_patch(s) matches Ok(files) ==> files.len() > 0,
{
    if read_patch(s) is Ok {
        let magic = read_exact(s, encode_utf8(INTENT_PATCH_MAGIC@).len())->Ok_0;
        let count = read_number(magic.rest, 4)->Ok_0;
        lemma_read_files_count(count.rest, Seq::empty(), count.value);
    }
}

/// A patch that can be read names no path twice.
pub proof fn lemma_read_paths_are_distinct(s: Seq<u8>)
    ensures
        read_patch(s) matches Ok(files) ==> distinct(patch_paths(files)),
{
    if read_patch(s) is Ok {
        let magic = read_exact(s, encode_utf8(INTENT_PATCH_MAGIC@).len())->Ok_0;
        let count = read_number(magic.rest, 4)->Ok_0;
        let none = Seq::<ExactIntentPatchFileV1View>::empty();
        assert(distinct(patch_paths(none)));
        lemma_files_are_read(count.rest, none, count.value);
    }
}

/// What reading `n` more files has read.
spec fn read_further(
    s: Seq<u8>,
    before: Seq<ExactIntentPatchFileV1View>,
    n: nat,
    r: Reading<Seq<ExactIntentPatchFileV1View>>,
) -> bool {
    &&& r.value.len() == before.len() + n
    &&& r.value.take(before.len() as int) == before
    &&& s == patch_files_bytes(r.value.skip(before.len() as int)) + r.rest
    &&& distinct(patch_paths(r.value))
    &&& forall|i: int| before.len() <= i < r.value.len() ==> fits_patch(#[trigger] r.value[i])
}

proof fn lemma_read_one_further(
    s: Seq<u8>,
    before: Seq<ExactIntentPatchFileV1View>,
    n: nat,
    x: Reading<ExactIntentPatchFileV1View>,
    r: Reading<Seq<ExactIntentPatchFileV1View>>,
)
    requires
        n > 0,
        s == patch_file_bytes(x.value) + x.rest,
        fits_patch(x.value),
        read_further(x.rest, before.push(x.value), (n - 1) as nat, r),
    ensures
        read_further(s, before, n, r),
{
    let more = before.push(x.value);
    let all = r.value;
    assert(all.take(before.len() as int) =~= all.take(more.len() as int).take(before.len() as int));
    assert(before =~= more.take(before.len() as int));
    let part = all.skip(before.len() as int);
    assert(all[before.len() as int] == all.take(more.len() as int)[before.len() as int]);
    assert(part[0] == x.value);
    assert(part.drop_first() =~= all.skip(more.len() as int));
    assert(patch_files_bytes(part) == patch_file_bytes(x.value) + patch_files_bytes(
        part.drop_first(),
    ));
    assert(s =~= patch_files_bytes(part) + r.rest);
    assert forall|i: int| before.len() <= i < all.len() implies fits_patch(#[trigger] all[i]) by {
        if i == before.len() {
            assert(all[i] == x.value);
        }
    }
}

/// Only patches are accepted, and each in one form: what is read are files that a patch can hold, and
/// writing them gives back the same bytes.
pub proof fn law_read_patches_are_canonical(s: Seq<u8>)
    ensures
        read_patch(s) matches Ok(files) ==> can_be_patched(files) && patch_bytes(files) == s,
{
    if let Ok(files) = read_patch(s) {
        let magic = encode_utf8(INTENT_PATCH_MAGIC@);
        let after = s.skip(magic.len() as int);
        let n = number_of(after.take(4));
        let rest = after.skip(4);
        lemma_digits_of_number(after.take(4));
        assert(distinct(patch_paths(Seq::<ExactIntentPatchFileV1View>::empty())));
        lemma_files_are_read(rest, Seq::empty(), n);
        let r = read_patch_files(rest, Seq::empty(), n)->Ok_0;
        assert(r.value.skip(0) =~= r.value);
        assert(patch_files_bytes(files) + r.rest =~= patch_files_bytes(files));
        assert(s =~= magic + big_endian(n, 4) + rest);
    }
}

proof fn lemma_read_exact_on(s: Seq<u8>, t: Seq<u8>, n: nat)
    ensures
        read_exact(s, n) matches Ok(r) ==> read_exact(s + t, n) == Ok::<_, Seq<char>>(
            Reading { value: r.value, rest: r.rest + t },
        ),
{
    if s.len() >= n {
        assert((s + t).take(n as int) =~= s.take(n as int));
        assert((s + t).skip(n as int) =~= s.skip(n as int) + t);
    }
}

proof fn lemma_read_sized_on(s: Seq<u8>, t: Seq<u8>, maximum: nat)
    ensures
        read_sized(s, maximum) matches Ok(r) ==> read_sized(s + t, maximum) == Ok::<_, Seq<char>>(
            Reading { value: r.value, rest: r.rest + t },
        ),
{
    reveal(read_sized);
    lemma_read_exact_on(s, t, 8);
    if let Ok(r) = read_number(s, 8) {
        lemma_read_exact_on(r.rest, t, r.value);
    }
}

proof fn lemma_read_text_on(s: Seq<u8>, t: Seq<u8>, maximum: nat, message: Seq<char>)
    ensures
        read_text(s, maximum, message) matches Ok(r) ==> read_text(s + t, maximum, message) == Ok::<
            _,
            Seq<char>,
        >(Reading { value: r.value, rest: r.rest + t }),
{
    reveal(read_text);
    lemma_read_sized_on(s, t, maximum);
}

proof fn lemma_read_optional_on(s: Seq<u8>, t: Seq<u8>)
    ensures
        read_optional(s) matches Ok(r) ==> read_optional(s + t) == Ok::<_, Seq<char>>(
            Reading { value: r.value, rest: r.rest + t },
        ),
{
    reveal(read_optional);
    lemma_read_exact_on(s, t, 1);
    if let Ok(flag) = read_flag(s) {
        lemma_read_sized_on(flag.rest, t, MAX_WORKSPACE_SNAPSHOT_FILE_BYTES as nat);
    }
}

proof fn lemma_read_file_on(s: Seq<u8>, t: Seq<u8>, before: Seq<ExactIntentPatchFileV1View>)
    ensures
        read_patch_file(s, before) matches Ok(r) ==> read_patch_file(s + t, before) == Ok::<
            _,
            Seq<char>,
        >(Reading { value: r.value, rest: r.rest + t }),
{
    let path_message = "Intent patch path is not UTF-8"@;
    let digest_message = "Intent patch expected digest is not UTF-8"@;
    let paths = MAX_INTENT_PATCH_PATH_BYTES as nat;
    let digests = MAX_INTENT_PATCH_DIGEST_BYTES as nat;
    lemma_read_text_on(s, t, paths, path_message);
    if let Ok(path) = read_text(s, paths, path_message) {
        lemma_read_exact_on(path.rest, t, 1);
        if let Ok(present) = read_flag(path.rest) {
            lemma_read_text_on(present.rest, t, digests, digest_message);
            if let Ok(digest) = read_text(present.rest, digests, digest_message) {
                lemma_read_optional_on(digest.rest, t);
            }
        }
    }
}

proof fn lemma_read_files_on(
    s: Seq<u8>,
    t: Seq<u8>,
    before: Seq<ExactIntentPatchFileV1View>,
    n: nat,
)
    ensures
        read_patch_files(s, before, n) matches Ok(r) ==> read_patch_files(s + t, before, n) == Ok::<
            _,
            Seq<char>,
        >(Reading { value: r.value, rest: r.rest + t }),
    decreases n,
{
    if n > 0 {
        lemma_read_file_on(s, t, before);
        if let Ok(r) = read_patch_file(s, before) {
            lemma_read_files_on(r.rest, t, before.push(r.value), (n - 1) as nat);
        }
    }
}

/// A patch with anything behind it is no patch.
pub proof fn law_longer_patches_are_refused(s: Seq<u8>, t: Seq<u8>)
    requires
        read_patch(s) is Ok,
        t.len() > 0,
    ensures
        read_patch(s + t) is Err,
{
    let magic = encode_utf8(INTENT_PATCH_MAGIC@);
    lemma_read_exact_on(s, t, magic.len());
    let after = s.skip(magic.len() as int);
    lemma_read_exact_on(after, t, 4);
    lemma_read_files_on(after.skip(4), t, Seq::empty(), number_of(after.take(4)));
}

/// A patch with anything missing at its end is no patch.
pub proof fn law_shorter_patches_are_refused(s: Seq<u8>, n: int)
    requires
        read_patch(s) is Ok,
        0 <= n < s.len(),
    ensures
        read_patch(s.take(n)) is Err,
{
    assert(s.take(n) + s.skip(n) =~= s);
    if read_patch(s.take(n)) is Ok {
        law_longer_patches_are_refused(s.take(n), s.skip(n));
    }
}

/// Replacing the changed range of the first content by the changed range of the second gives the
/// second: nothing outside the two ranges differs.
pub proof fn law_changed_ranges_hold_the_change(
    before: Seq<u8>,
    after: Seq<u8>,
    old_range: IntentByteRangeV1View,
    new_range: IntentByteRangeV1View,
)
    requires
        before.len() <= u64::MAX,
        after.len() <= u64::MAX,
        changed_ranges(before, after) == Ok::<
            (IntentByteRangeV1View, IntentByteRangeV1View),
            Seq<char>,
        >((old_range, new_range)),
    ensures
        old_range.start <= old_range.end <= before.len(),
        new_range.start <= new_range.end <= after.len(),
        before.take(old_range.start as int) + after.subrange(
            new_range.start as int,
            new_range.end as int,
        ) + before.skip(old_range.end as int) == after,
        after.take(new_range.start as int) + before.subrange(
            old_range.start as int,
            old_range.end as int,
        ) + after.skip(new_range.end as int) == before,
{
    lemma_kept(before, after);
    let p = kept_prefix(before, after) as int;
    let s = kept_suffix(before, after) as int;
    assert(before.take(p) + after.subrange(p, after.len() - s) + before.skip(before.len() - s)
        =~= after) by {
        assert(before.skip(before.len() - s) == after.skip(after.len() - s));
        assert(before.take(p) == after.take(p));
        assert(after.take(p) + after.subrange(p, after.len() - s) + after.skip(after.len() - s)
            =~= after);
    }
    assert(after.take(p) + before.subrange(p, before.len() - s) + after.skip(after.len() - s)
        =~= before) by {
        assert(before.take(p) + before.subrange(p, before.len() - s) + before.skip(
            before.len() - s,
        ) =~= before);
    }
}

/// A patch and its reverse are two sides of one change: where the one ends the other begins.
pub proof fn law_reverse_patch_takes_the_change_back(f: MaterializedIntentFileView)
    ensures
        patch_entry(f, PatchDirection::Reverse).target == f.before,
        patch_entry(f, PatchDirection::Forward).target == f.after,
        patch_entry(f, PatchDirection::Reverse).expected_present == (patch_entry(
            f,
            PatchDirection::Forward,
        ).target is Some),
        patch_entry(f, PatchDirection::Forward).expected_present == (patch_entry(
            f,
            PatchDirection::Reverse,
        ).target is Some),
{
}

} // verus!
