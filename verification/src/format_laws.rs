//! What texts, numbers, names and patches are made of.

use vstd::prelude::*;
use vstd::utf8::is_char_boundary;

use crate::execution_backend::{
    backend_label, capability_label, coverage_label, execution_backend_capabilities_default,
    execution_capability_requirements_default, fallback_label, missing_of, network_label,
    profile_label, strategy_label, stream_label, ExecutionBackendCapabilities,
    ExecutionBackendKind, ExecutionCapability, ExecutionCapabilityRequirements,
    ExecutionCoverageLabel, ExecutionNetworkPolicy, ExecutionOutputStream,
    ExecutionSandboxFallback, ExecutionSandboxProfile, ExecutionStrategyMode,
};
use crate::integration::path_safe_id_verdict;
use crate::intent::{digest_verdict, IntentOperationErrorCode, IntentOperationKind};
use crate::intent_drop::{code_name, frontier_of};
use crate::intent_impact::{kind_name, low_bytes};
use crate::intent_lineage::{clamped, count_different};
use crate::intent_patch::{
    big_endian, changed_ranges, common_prefix, common_suffix, cut_after, cut_before_end, flag_byte,
    kept_prefix, lemma_kept, optional_bytes, patch_bytes, patch_entry, patch_file_bytes,
    patch_files_bytes, shorter, sized, MaterializedIntentFileView, PatchDirection,
};
use crate::intent_state::ExactIntentPatchFileV1View;
use crate::records::SessionStreamRecordView;
use crate::text::{byte_len, decimal, precedes, CharClass};
use crate::value::next_number;

verus! {

// Numbers and texts.

/// The number that decimal digits stand for.
pub open spec fn number_in(s: Seq<char>) -> int
    decreases s.len(),
{
    if s.len() == 0 {
        0
    } else {
        number_in(s.drop_last()) * 10 + (s.last() as int - '0' as int)
    }
}

/// A number is written in decimal digits that stand for it, and does not begin with a zero unless
/// it is zero.
pub proof fn law_numbers_are_written_in_decimal(n: nat)
    ensures
        number_in(decimal(n)) == n,
        decimal(n).len() > 0,
        forall|i: int| 0 <= i < decimal(n).len() ==> '0' <= #[trigger] decimal(n)[i] && decimal(n)[i] <= '9',
        decimal(n)[0] == '0' ==> n == 0,
    decreases n,
{
    if n < 10 {
        let s = decimal(n);
        assert(s.drop_last() =~= Seq::<char>::empty());
        assert(number_in(s.drop_last()) == 0);
    } else {
        law_numbers_are_written_in_decimal(n / 10);
        let s = decimal(n);
        assert(s.drop_last() =~= decimal(n / 10));
        assert(s[0] == decimal(n / 10)[0]);
        assert forall|i: int| 0 <= i < s.len() implies '0' <= #[trigger] s[i] && s[i] <= '9' by {
            if i < s.len() - 1 {
                assert(s[i] == decimal(n / 10)[i]);
            }
        }
    }
}

/// A text stands before another if and only if it is a part of its beginning, or has the smaller
/// character where the two first differ.
pub proof fn law_texts_are_ordered_by_their_first_difference(a: Seq<char>, b: Seq<char>)
    ensures
        precedes(a, b) <==> exists|k: int| first_differs(a, b, k),
    decreases a.len(),
{
    if a.len() > 0 && b.len() > 0 && a[0] == b[0] {
        let x = a.drop_first();
        let y = b.drop_first();
        law_texts_are_ordered_by_their_first_difference(x, y);
        if precedes(x, y) {
            let k = choose|k: int| first_differs(x, y, k);
            assert forall|i: int| 0 <= i < k + 1 implies #[trigger] a[i] == b[i] by {
                if i > 0 {
                    assert(x[i - 1] == y[i - 1]);
                }
            }
            if k < x.len() {
                assert(x[k] == a[k + 1] && y[k] == b[k + 1]);
            }
            assert(first_differs(a, b, k + 1));
        }
        if exists|k: int| first_differs(a, b, k) {
            let k = choose|k: int| first_differs(a, b, k);
            assert(k > 0);
            assert forall|i: int| 0 <= i < k - 1 implies #[trigger] x[i] == y[i] by {
                assert(a[i + 1] == b[i + 1]);
            }
            if k < a.len() {
                assert(x[k - 1] == a[k] && y[k - 1] == b[k]);
            }
            assert(first_differs(x, y, k - 1));
        }
    } else {
        if precedes(a, b) {
            assert(first_differs(a, b, 0));
        }
        if exists|k: int| first_differs(a, b, k) {
            let k = choose|k: int| first_differs(a, b, k);
            if k > 0 {
                assert(a[0] == b[0]);
            }
        }
    }
}

/// Two texts are the same up to `k`, where the first ends or has the smaller character.
pub open spec fn first_differs(a: Seq<char>, b: Seq<char>, k: int) -> bool {
    &&& 0 <= k <= a.len()
    &&& k < b.len()
    &&& forall|i: int| 0 <= i < k ==> #[trigger] a[i] == b[i]
    &&& k < a.len() ==> a[k] < b[k]
}

/// The number that bytes stand for, the lowest byte first.
pub open spec fn number_from_low(s: Seq<u8>) -> int
    decreases s.len(),
{
    if s.len() == 0 {
        0
    } else {
        s[0] as int + 256 * number_from_low(s.drop_first())
    }
}

/// 256 to the power of `k`.
pub open spec fn room_of(k: nat) -> nat
    decreases k,
{
    if k == 0 {
        1
    } else {
        256 * room_of((k - 1) as nat)
    }
}

/// A number that there is room for stands in its bytes, the lowest first.
pub proof fn law_low_bytes_hold_the_number(n: nat, k: nat)
    requires
        n < room_of(k),
    ensures
        low_bytes(n, k).len() == k,
        number_from_low(low_bytes(n, k)) == n,
    decreases k,
{
    if k > 0 {
        law_low_bytes_hold_the_number(n / 256, (k - 1) as nat);
        let s = low_bytes(n, k);
        assert(s.drop_first() =~= low_bytes(n / 256, (k - 1) as nat));
    }
}

/// The number that bytes stand for, the highest byte first.
pub open spec fn number_from_high(s: Seq<u8>) -> int
    decreases s.len(),
{
    if s.len() == 0 {
        0
    } else {
        256 * number_from_high(s.drop_last()) + s.last() as int
    }
}

/// A number that there is room for stands in its digits, the highest first.
pub proof fn law_high_bytes_hold_the_number(n: nat, k: nat)
    requires
        n < room_of(k),
    ensures
        big_endian(n, k).len() == k,
        number_from_high(big_endian(n, k)) == n,
    decreases k,
{
    if k > 0 {
        law_high_bytes_hold_the_number(n / 256, (k - 1) as nat);
        let s = big_endian(n, k);
        assert(s.drop_last() =~= big_endian(n / 256, (k - 1) as nat));
    }
}

/// A count stays what it is as long as it fits into 32 bits, and is the greatest number of that
/// size otherwise. The next number is one more, but for the last number there is.
pub proof fn law_counts_stop_at_the_greatest(n: nat, m: u64)
    ensures
        n < 4294967296 ==> clamped(n) == n,
        n >= 4294967296 ==> clamped(n) == 4294967295,
        m < 18446744073709551615 ==> next_number(m) == m + 1,
{
}

/// The number of different items: one more for an item that is new, and no more for one that is
/// not.
pub proof fn law_different_items_are_counted_once<A>(s: Seq<A>, x: A)
    ensures
        count_different(Seq::<A>::empty()) == 0,
        s.contains(x) ==> count_different(s.push(x)) == count_different(s),
        !s.contains(x) ==> count_different(s.push(x)) == count_different(s) + 1,
{
    assert(s.push(x).drop_last() =~= s);
}

/// An identity can stand in a path if and only if it is a name of 128 bytes at most that is neither
/// `.` nor `..`, of ASCII letters, digits, `-`, `_` and `.`.
pub proof fn law_identities_in_paths_are_exact(label: Seq<char>, value: Seq<char>)
    ensures
        path_safe_id_verdict(label, value) is Ok <==> {
            &&& value.len() > 0
            &&& value != seq!['.']
            &&& value != seq!['.', '.']
            &&& byte_len(value) <= 128
            &&& forall|i: int| 0 <= i < value.len() ==> is_path_sign(#[trigger] value[i])
        },
{
    reveal_strlit(".");
    reveal_strlit("..");
    assert("."@ =~= seq!['.']);
    assert(".."@ =~= seq!['.', '.']);
    assert forall|i: int| 0 <= i < value.len() implies is_path_sign(#[trigger] value[i])
        == crate::text::in_class(CharClass::DottedName, value[i]) by {}
}

/// A letter, a digit, or one of `-`, `_` and `.`.
pub open spec fn is_path_sign(c: char) -> bool {
    ('a' <= c && c <= 'z') || ('A' <= c && c <= 'Z') || ('0' <= c && c <= '9') || c == '-' || c
        == '_' || c == '.'
}

/// A digest is taken as it is if and only if it is its prefix and 64 hexadecimal digits, small or
/// capital.
pub proof fn law_digest_texts_are_exact(
    prefix: Seq<char>,
    value: Seq<char>,
    no_prefix: Seq<char>,
    no_hex: Seq<char>,
)
    ensures
        digest_verdict(prefix, value, no_prefix, no_hex) is Ok <==> {
            &&& value.len() == prefix.len() + 64
            &&& forall|i: int| 0 <= i < prefix.len() ==> #[trigger] value[i] == prefix[i]
            &&& forall|i: int|
                prefix.len() <= i < value.len() ==> crate::intent::is_hex_digit(#[trigger] value[i])
        },
        digest_verdict(prefix, value, no_prefix, no_hex) matches Ok(x) ==> x == value,
        forall|c: char|
            #[trigger] crate::intent::is_hex_digit(c) <==> ('0' <= c && c <= '9') || ('a' <= c && c
                <= 'f') || ('A' <= c && c <= 'F'),
{
    let n = prefix.len() as int;
    if prefix.is_prefix_of(value) {
        let hex = value.skip(n);
        assert forall|i: int| 0 <= i < n implies #[trigger] value[i] == prefix[i] by {
            assert(value.subrange(0, n)[i] == value[i]);
        }
        assert forall|i: int| 0 <= i < hex.len() implies #[trigger] hex[i] == value[i + n] by {}
        if crate::intent::is_digest_hex(hex) {
            assert forall|i: int| n <= i < value.len() implies crate::intent::is_hex_digit(
                #[trigger] value[i],
            ) by {
                assert(hex[i - n] == value[i]);
            }
        }
    } else if value.len() >= n && (forall|i: int| 0 <= i < n ==> #[trigger] value[i] == prefix[i]) {
        assert(value.subrange(0, n) =~= prefix);
    }
}

/// The frontier of a stream is the place of its last record, and zero where there is none.
pub proof fn law_frontiers_are_the_last_place(
    records: Seq<SessionStreamRecordView>,
    r: SessionStreamRecordView,
)
    ensures
        frontier_of(Seq::empty()) == 0,
        frontier_of(records.push(r)) == r.stream_sequence,
{
}

// Patches.

/// A byte string in a patch stands behind its length, in eight bytes; a flag is one byte, one or
/// zero; and an optional byte string is a flag, and the string where there is one.
pub proof fn law_parts_of_patches_are_sized(bytes: Seq<u8>, i: int)
    requires
        bytes.len() < room_of(8),
    ensures
        sized(bytes).len() == 8 + bytes.len(),
        number_from_high(sized(bytes).take(8)) == bytes.len(),
        0 <= i < bytes.len() ==> sized(bytes)[8 + i] == bytes[i],
        flag_byte(true) == seq![1u8],
        flag_byte(false) == seq![0u8],
        optional_bytes(None) == seq![0u8],
        optional_bytes(Some(bytes)).len() == 9 + bytes.len(),
        optional_bytes(Some(bytes))[0] == 1,
        0 <= i < bytes.len() ==> optional_bytes(Some(bytes))[9 + i] == bytes[i],
{
    law_high_bytes_hold_the_number(bytes.len(), 8);
    assert(sized(bytes).take(8) =~= big_endian(bytes.len(), 8));
}

/// A patch of one file more is the patch so far with the file behind it, and a count of one more:
/// the files stand in their order, and each is its path, whether it is expected, its digest and its
/// target.
pub proof fn law_patches_hold_their_files_in_order(
    files: Seq<ExactIntentPatchFileV1View>,
    f: ExactIntentPatchFileV1View,
)
    ensures
        patch_files_bytes(Seq::empty()) == Seq::<u8>::empty(),
        patch_files_bytes(files.push(f)) == patch_files_bytes(files) + sized(
            vstd::utf8::encode_utf8(f.path),
        ) + seq![
            if f.expected_present {
                1u8
            } else {
                0u8
            },
        ] + sized(vstd::utf8::encode_utf8(f.expected_digest)) + optional_bytes(f.target),
        patch_bytes(files) == vstd::utf8::encode_utf8("sigil-intent-patch-v1\0"@) + big_endian(
            files.len(),
            4,
        ) + patch_files_bytes(files),
    decreases files.len(),
{
    let all = files.push(f);
    if files.len() == 0 {
        assert(all.drop_first() =~= Seq::empty());
        assert(patch_files_bytes(all.drop_first()) =~= Seq::empty());
        assert(patch_files_bytes(all) =~= patch_file_bytes(f));
        assert(patch_files_bytes(files) =~= Seq::empty());
    } else {
        law_patches_hold_their_files_in_order(files.drop_first(), f);
        assert(all.drop_first() =~= files.drop_first().push(f));
        assert(all[0] == files[0]);
    }
    assert(patch_files_bytes(all) =~= patch_files_bytes(files) + patch_file_bytes(f));
}

/// A patch says of a file that it is expected as the one side of the change and is to become the
/// other, with the digest of the side that is expected.
pub proof fn law_patches_go_both_ways(f: MaterializedIntentFileView)
    ensures
        patch_entry(f, PatchDirection::Forward).path == f.path,
        patch_entry(f, PatchDirection::Forward).expected_present <==> f.before is Some,
        patch_entry(f, PatchDirection::Forward).expected_digest == f.before_digest,
        patch_entry(f, PatchDirection::Forward).target == f.after,
        patch_entry(f, PatchDirection::Reverse).path == f.path,
        patch_entry(f, PatchDirection::Reverse).expected_present <==> f.after is Some,
        patch_entry(f, PatchDirection::Reverse).expected_digest == f.after_digest,
        patch_entry(f, PatchDirection::Reverse).target == f.before,
{
}

proof fn lemma_longest_prefix(a: Seq<u8>, b: Seq<u8>, k: int)
    requires
        0 <= k <= a.len(),
        k <= b.len(),
        forall|i: int| 0 <= i < k ==> #[trigger] a[i] == b[i],
    ensures
        k <= common_prefix(a, b),
    decreases a.len(),
{
    if k > 0 {
        let x = a.drop_first();
        let y = b.drop_first();
        assert(a[0] == b[0]);
        assert forall|i: int| 0 <= i < k - 1 implies #[trigger] x[i] == y[i] by {
            assert(a[i + 1] == b[i + 1]);
        }
        lemma_longest_prefix(x, y, k - 1);
    }
}

proof fn lemma_last_cut(a: Seq<u8>, b: Seq<u8>, n: nat, k: nat)
    requires
        k <= n,
        k > 0 ==> is_char_boundary(a, k as int) && is_char_boundary(b, k as int),
    ensures
        k <= cut_after(a, b, n),
    decreases n,
{
    if n > k && !(is_char_boundary(a, n as int) && is_char_boundary(b, n as int)) {
        lemma_last_cut(a, b, (n - 1) as nat, k);
    }
}

proof fn lemma_longest_suffix(a: Seq<u8>, b: Seq<u8>, n: nat, k: nat)
    requires
        k <= n,
        k <= a.len(),
        k <= b.len(),
        forall|i: int| 1 <= i <= k ==> #[trigger] from_end(a, i) == from_end(b, i),
    ensures
        k <= common_suffix(a, b, n),
    decreases n,
{
    if k > 0 {
        let x = a.drop_last();
        let y = b.drop_last();
        assert(from_end(a, 1) == from_end(b, 1));
        assert forall|i: int| 1 <= i <= k - 1 implies #[trigger] from_end(x, i) == from_end(y, i) by {
            assert(from_end(a, i + 1) == from_end(b, i + 1));
        }
        lemma_longest_suffix(x, y, (n - 1) as nat, (k - 1) as nat);
    }
}

/// The byte at a place counted from the end, the last being the first.
pub open spec fn from_end(s: Seq<u8>, i: int) -> u8 {
    s[s.len() - i]
}

proof fn lemma_last_cut_before_end(a: Seq<u8>, b: Seq<u8>, n: nat, k: nat)
    requires
        k <= n,
        k > 0 ==> is_char_boundary(a, a.len() - k) && is_char_boundary(b, b.len() - k),
    ensures
        k <= cut_before_end(a, b, n),
    decreases n,
{
    if n > k && !(is_char_boundary(a, a.len() - n) && is_char_boundary(b, b.len() - n)) {
        lemma_last_cut_before_end(a, b, (n - 1) as nat, k);
    }
}

/// The ranges that changed begin as late as can be, and then end as early: wherever both contents
/// can be cut between two characters and are the same up to there, they begin no earlier; and
/// wherever both can be cut, are the same from there on, and the cut is not in front of the begin,
/// they end no later.
pub proof fn law_changed_ranges_are_as_small_as_can_be(before: Seq<u8>, after: Seq<u8>, k: nat)
    requires
        changed_ranges(before, after) is Ok,
        before.len() <= u64::MAX,
        after.len() <= u64::MAX,
        k <= before.len(),
        k <= after.len(),
    ensures
        ({
            let (old_range, new_range) = changed_ranges(before, after)->Ok_0;
            &&& old_range.start == new_range.start
            &&& before.len() - old_range.end == after.len() - new_range.end
            &&& (forall|i: int| 0 <= i < k ==> #[trigger] before[i] == after[i])
                && is_char_boundary(before, k as int) && is_char_boundary(after, k as int) ==> k
                <= old_range.start
            &&& (forall|i: int| 1 <= i <= k ==> #[trigger] from_end(before, i) == from_end(after, i))
                && is_char_boundary(before, before.len() - k) && is_char_boundary(
                after,
                after.len() - k,
            ) && old_range.start <= before.len() - k && new_range.start <= after.len() - k
                ==> old_range.end <= before.len() - k
        }),
{
    lemma_kept(before, after);
    if (forall|i: int| 0 <= i < k ==> #[trigger] before[i] == after[i]) && is_char_boundary(
        before,
        k as int,
    ) && is_char_boundary(after, k as int) {
        lemma_longest_prefix(before, after, k as int);
        lemma_last_cut(before, after, common_prefix(before, after), k);
    }
    let p = kept_prefix(before, after);
    let room = (shorter(before.len(), after.len()) - p) as nat;
    if (forall|i: int| 1 <= i <= k ==> #[trigger] from_end(before, i) == from_end(after, i))
        && is_char_boundary(before, before.len() - k) && is_char_boundary(after, after.len() - k) && p
        <= before.len() - k && p <= after.len() - k {
        lemma_longest_suffix(before, after, room, k);
        lemma_last_cut_before_end(before, after, common_suffix(before, after, room), k);
    }
}

// Labels and defaults.

/// A backend that nothing is known of has no capability, and one that nothing is asked of lacks
/// none.
pub proof fn law_defaults_ask_and_offer_nothing(
    b: ExecutionBackendCapabilities,
    r: ExecutionCapabilityRequirements,
)
    ensures
        missing_of(b, execution_capability_requirements_default()).len() == 0,
        missing_of(execution_backend_capabilities_default(), r).len() == 0 <==> !(
        r.filesystem_isolation || r.network_isolation || r.process_isolation || r.resource_limits
            || r.persistent_pty || r.workspace_snapshot),
{
}

/// Every backend has its label, and no two have the same.
pub proof fn law_backends_have_their_labels(a: ExecutionBackendKind, b: ExecutionBackendKind)
    ensures
        backend_label(a) == backend_label(b) ==> a == b,
        backend_label(ExecutionBackendKind::Local) == "local"@,
        backend_label(ExecutionBackendKind::MacosSeatbelt) == "macos_seatbelt"@,
        backend_label(ExecutionBackendKind::LinuxBubblewrap) == "linux_bubblewrap"@,
        backend_label(ExecutionBackendKind::Docker) == "docker"@,
{
    reveal_strlit("local");
    reveal_strlit("macos_seatbelt");
    reveal_strlit("linux_bubblewrap");
    reveal_strlit("docker");
    assert("local"@.len() == 5);
    assert("macos_seatbelt"@.len() == 14);
    assert("linux_bubblewrap"@.len() == 16);
    assert("docker"@.len() == 6);
}

/// Every capability has its label, and no two have the same.
pub proof fn law_capabilities_have_their_labels(a: ExecutionCapability, b: ExecutionCapability)
    ensures
        capability_label(a) == capability_label(b) ==> a == b,
        capability_label(ExecutionCapability::FilesystemIsolation) == "filesystem_isolation"@,
        capability_label(ExecutionCapability::NetworkIsolation) == "network_isolation"@,
        capability_label(ExecutionCapability::ProcessIsolation) == "process_isolation"@,
        capability_label(ExecutionCapability::ResourceLimits) == "resource_limits"@,
        capability_label(ExecutionCapability::PersistentPty) == "persistent_pty"@,
        capability_label(ExecutionCapability::WorkspaceSnapshot) == "workspace_snapshot"@,
{
    reveal_strlit("filesystem_isolation");
    reveal_strlit("network_isolation");
    reveal_strlit("process_isolation");
    reveal_strlit("resource_limits");
    reveal_strlit("persistent_pty");
    reveal_strlit("workspace_snapshot");
    assert("filesystem_isolation"@.len() == 20);
    assert("network_isolation"@.len() == 17);
    assert("process_isolation"@.len() == 17);
    assert("resource_limits"@.len() == 15);
    assert("persistent_pty"@.len() == 14);
    assert("workspace_snapshot"@.len() == 18);
    assert("network_isolation"@[0] != "process_isolation"@[0]);
}

/// Every policy on the network has its label, and no two have the same.
pub proof fn law_network_policies_have_their_labels(a: ExecutionNetworkPolicy, b: ExecutionNetworkPolicy)
    ensures
        network_label(a) == network_label(b) ==> a == b,
        network_label(ExecutionNetworkPolicy::Allowed) == "allowed"@,
        network_label(ExecutionNetworkPolicy::Denied) == "denied"@,
        network_label(ExecutionNetworkPolicy::Unsupported) == "unsupported"@,
        network_label(ExecutionNetworkPolicy::Unknown) == "unknown"@,
{
    reveal_strlit("allowed");
    reveal_strlit("denied");
    reveal_strlit("unsupported");
    reveal_strlit("unknown");
    assert("allowed"@.len() == 7);
    assert("denied"@.len() == 6);
    assert("unsupported"@.len() == 11);
    assert("unknown"@.len() == 7);
    assert("allowed"@[0] != "unknown"@[0]);
}

/// Every stream has its label, and no two have the same.
pub proof fn law_streams_have_their_labels(a: ExecutionOutputStream, b: ExecutionOutputStream)
    ensures
        stream_label(a) == stream_label(b) ==> a == b,
        stream_label(ExecutionOutputStream::Stdout) == "stdout"@,
        stream_label(ExecutionOutputStream::Stderr) == "stderr"@,
        stream_label(ExecutionOutputStream::Combined) == "combined"@,
{
    reveal_strlit("stdout");
    reveal_strlit("stderr");
    reveal_strlit("combined");
    assert("stdout"@.len() == 6);
    assert("stderr"@.len() == 6);
    assert("combined"@.len() == 8);
    assert("stdout"@[3] != "stderr"@[3]);
}

/// Both strategies have their labels, and these differ.
pub proof fn law_strategies_have_their_labels(a: ExecutionStrategyMode, b: ExecutionStrategyMode)
    ensures
        strategy_label(a) == strategy_label(b) ==> a == b,
        strategy_label(ExecutionStrategyMode::Local) == "local"@,
        strategy_label(ExecutionStrategyMode::Sandbox) == "sandbox"@,
{
    reveal_strlit("local");
    reveal_strlit("sandbox");
    assert("local"@.len() == 5);
    assert("sandbox"@.len() == 7);
}

/// Every fallback has its label, and no two have the same.
pub proof fn law_fallbacks_have_their_labels(a: ExecutionSandboxFallback, b: ExecutionSandboxFallback)
    ensures
        fallback_label(a) == fallback_label(b) ==> a == b,
        fallback_label(ExecutionSandboxFallback::Deny) == "deny"@,
        fallback_label(ExecutionSandboxFallback::Prompt) == "prompt"@,
        fallback_label(ExecutionSandboxFallback::Unconfined) == "unconfined"@,
{
    reveal_strlit("deny");
    reveal_strlit("prompt");
    reveal_strlit("unconfined");
    assert("deny"@.len() == 4);
    assert("prompt"@.len() == 6);
    assert("unconfined"@.len() == 10);
}

/// Every profile has its label, and no two have the same.
pub proof fn law_profiles_have_their_labels(a: ExecutionSandboxProfile, b: ExecutionSandboxProfile)
    ensures
        profile_label(a) == profile_label(b) ==> a == b,
        profile_label(ExecutionSandboxProfile::Unconfined) == "unconfined"@,
        profile_label(ExecutionSandboxProfile::WorkspaceWrite) == "workspace_write"@,
        profile_label(ExecutionSandboxProfile::BuildOffline) == "build_offline"@,
        profile_label(ExecutionSandboxProfile::BuildNetworked) == "build_networked"@,
{
    reveal_strlit("unconfined");
    reveal_strlit("workspace_write");
    reveal_strlit("build_offline");
    reveal_strlit("build_networked");
    assert("unconfined"@.len() == 10);
    assert("workspace_write"@.len() == 15);
    assert("build_offline"@.len() == 13);
    assert("build_networked"@.len() == 15);
    assert("workspace_write"@[0] != "build_networked"@[0]);
}

/// Every coverage has its label, and no two have the same.
pub proof fn law_coverages_have_their_labels(a: ExecutionCoverageLabel, b: ExecutionCoverageLabel)
    ensures
        coverage_label(a) == coverage_label(b) ==> a == b,
        coverage_label(ExecutionCoverageLabel::KernelMediated) == "kernel_mediated"@,
        coverage_label(ExecutionCoverageLabel::LocalBackendEnforced) == "local_backend_enforced"@,
        coverage_label(ExecutionCoverageLabel::ExternalMcpServer) == "external_mcp_server"@,
        coverage_label(ExecutionCoverageLabel::PluginManaged) == "plugin_managed"@,
        coverage_label(ExecutionCoverageLabel::RemoteService) == "remote_service"@,
        coverage_label(ExecutionCoverageLabel::UnknownExternal) == "unknown_external"@,
{
    reveal_strlit("kernel_mediated");
    reveal_strlit("local_backend_enforced");
    reveal_strlit("external_mcp_server");
    reveal_strlit("plugin_managed");
    reveal_strlit("remote_service");
    reveal_strlit("unknown_external");
    assert("kernel_mediated"@.len() == 15);
    assert("local_backend_enforced"@.len() == 22);
    assert("external_mcp_server"@.len() == 19);
    assert("plugin_managed"@.len() == 14);
    assert("remote_service"@.len() == 14);
    assert("unknown_external"@.len() == 16);
    assert("plugin_managed"@[0] != "remote_service"@[0]);
}

/// Every kind of operation has its name, and no two have the same.
pub proof fn law_kinds_of_operations_have_their_names(a: IntentOperationKind, b: IntentOperationKind)
    ensures
        kind_name(a) == kind_name(b) ==> a == b,
        kind_name(IntentOperationKind::Drop) == "Drop"@,
        kind_name(IntentOperationKind::ReviseImpactPreview) == "ReviseImpactPreview"@,
        kind_name(IntentOperationKind::ReplaceImpactPreview) == "ReplaceImpactPreview"@,
        kind_name(IntentOperationKind::Adopt) == "Adopt"@,
{
    reveal_strlit("Drop");
    reveal_strlit("ReviseImpactPreview");
    reveal_strlit("ReplaceImpactPreview");
    reveal_strlit("Adopt");
    assert("Drop"@.len() == 4);
    assert("ReviseImpactPreview"@.len() == 19);
    assert("ReplaceImpactPreview"@.len() == 20);
    assert("Adopt"@.len() == 5);
}

/// Every error code has its name, and no two have the same.
pub proof fn law_error_codes_have_their_names(a: IntentOperationErrorCode, b: IntentOperationErrorCode)
    ensures
        code_name(a) == code_name(b) ==> a == b,
        code_name(IntentOperationErrorCode::UnsupportedSchema) == "UnsupportedSchema"@,
        code_name(IntentOperationErrorCode::IntentHistoryUnavailable) == "IntentHistoryUnavailable"@,
        code_name(IntentOperationErrorCode::UnknownIntent) == "UnknownIntent"@,
        code_name(IntentOperationErrorCode::UnknownOperation) == "UnknownOperation"@,
        code_name(IntentOperationErrorCode::StaleIntentVersion) == "StaleIntentVersion"@,
        code_name(IntentOperationErrorCode::StaleStackVersion) == "StaleStackVersion"@,
        code_name(IntentOperationErrorCode::InvalidDependencyGraph) == "InvalidDependencyGraph"@,
        code_name(IntentOperationErrorCode::TargetNotLeaf) == "TargetNotLeaf"@,
        code_name(IntentOperationErrorCode::SharedArtifact) == "SharedArtifact"@,
        code_name(IntentOperationErrorCode::UnownedArtifact) == "UnownedArtifact"@,
        code_name(IntentOperationErrorCode::DriftedArtifact) == "DriftedArtifact"@,
        code_name(IntentOperationErrorCode::ArtifactUnavailable) == "ArtifactUnavailable"@,
        code_name(IntentOperationErrorCode::ArtifactDigestMismatch) == "ArtifactDigestMismatch"@,
        code_name(IntentOperationErrorCode::UnsupportedArtifact) == "UnsupportedArtifact"@,
        code_name(IntentOperationErrorCode::UnsupportedSideEffect) == "UnsupportedSideEffect"@,
        code_name(IntentOperationErrorCode::MissingExecutionLineage) == "MissingExecutionLineage"@,
        code_name(IntentOperationErrorCode::MissingParentMutationEvidence) == "MissingParentMutationEvidence"@,
        code_name(IntentOperationErrorCode::MissingCurrentVerificationEvidence) == "MissingCurrentVerificationEvidence"@,
        code_name(IntentOperationErrorCode::PreviewDigestMismatch) == "PreviewDigestMismatch"@,
        code_name(IntentOperationErrorCode::WorkspaceRevisionMismatch) == "WorkspaceRevisionMismatch"@,
        code_name(IntentOperationErrorCode::PermissionDenied) == "PermissionDenied"@,
        code_name(IntentOperationErrorCode::ApprovalAuthorityUnavailable) == "ApprovalAuthorityUnavailable"@,
        code_name(IntentOperationErrorCode::WorkspaceLeaseUnavailable) == "WorkspaceLeaseUnavailable"@,
        code_name(IntentOperationErrorCode::WorkspaceOutOfScope) == "WorkspaceOutOfScope"@,
        code_name(IntentOperationErrorCode::OperationStateConflict) == "OperationStateConflict"@,
        code_name(IntentOperationErrorCode::IntentStateConflict) == "IntentStateConflict"@,
        code_name(IntentOperationErrorCode::PartialApplication) == "PartialApplication"@,
        code_name(IntentOperationErrorCode::ReconciliationRequired) == "ReconciliationRequired"@,
{
    reveal_strlit("UnsupportedSchema");
    reveal_strlit("IntentHistoryUnavailable");
    reveal_strlit("UnknownIntent");
    reveal_strlit("UnknownOperation");
    reveal_strlit("StaleIntentVersion");
    reveal_strlit("StaleStackVersion");
    reveal_strlit("InvalidDependencyGraph");
    reveal_strlit("TargetNotLeaf");
    reveal_strlit("SharedArtifact");
    reveal_strlit("UnownedArtifact");
    reveal_strlit("DriftedArtifact");
    reveal_strlit("ArtifactUnavailable");
    reveal_strlit("ArtifactDigestMismatch");
    reveal_strlit("UnsupportedArtifact");
    reveal_strlit("UnsupportedSideEffect");
    reveal_strlit("MissingExecutionLineage");
    reveal_strlit("MissingParentMutationEvidence");
    reveal_strlit("MissingCurrentVerificationEvidence");
    reveal_strlit("PreviewDigestMismatch");
    reveal_strlit("WorkspaceRevisionMismatch");
    reveal_strlit("PermissionDenied");
    reveal_strlit("ApprovalAuthorityUnavailable");
    reveal_strlit("WorkspaceLeaseUnavailable");
    reveal_strlit("WorkspaceOutOfScope");
    reveal_strlit("OperationStateConflict");
    reveal_strlit("IntentStateConflict");
    reveal_strlit("PartialApplication");
    reveal_strlit("ReconciliationRequired");
    assert("UnsupportedSchema"@.len() == 17);
    assert("IntentHistoryUnavailable"@.len() == 24);
    assert("UnknownIntent"@.len() == 13);
    assert("UnknownOperation"@.len() == 16);
    assert("StaleIntentVersion"@.len() == 18);
    assert("StaleStackVersion"@.len() == 17);
    assert("InvalidDependencyGraph"@.len() == 22);
    assert("TargetNotLeaf"@.len() == 13);
    assert("SharedArtifact"@.len() == 14);
    assert("UnownedArtifact"@.len() == 15);
    assert("DriftedArtifact"@.len() == 15);
    assert("ArtifactUnavailable"@.len() == 19);
    assert("ArtifactDigestMismatch"@.len() == 22);
    assert("UnsupportedArtifact"@.len() == 19);
    assert("UnsupportedSideEffect"@.len() == 21);
    assert("MissingExecutionLineage"@.len() == 23);
    assert("MissingParentMutationEvidence"@.len() == 29);
    assert("MissingCurrentVerificationEvidence"@.len() == 34);
    assert("PreviewDigestMismatch"@.len() == 21);
    assert("WorkspaceRevisionMismatch"@.len() == 25);
    assert("PermissionDenied"@.len() == 16);
    assert("ApprovalAuthorityUnavailable"@.len() == 28);
    assert("WorkspaceLeaseUnavailable"@.len() == 25);
    assert("WorkspaceOutOfScope"@.len() == 19);
    assert("OperationStateConflict"@.len() == 22);
    assert("IntentStateConflict"@.len() == 19);
    assert("PartialApplication"@.len() == 18);
    assert("ReconciliationRequired"@.len() == 22);
    assert("UnsupportedSchema"@[0] != "StaleStackVersion"@[0]);
    assert("UnknownIntent"@[0] != "TargetNotLeaf"@[0]);
    assert("UnknownOperation"@[0] != "PermissionDenied"@[0]);
    assert("StaleIntentVersion"@[0] != "PartialApplication"@[0]);
    assert("InvalidDependencyGraph"@[0] != "ArtifactDigestMismatch"@[0]);
    assert("InvalidDependencyGraph"@[0] != "OperationStateConflict"@[0]);
    assert("InvalidDependencyGraph"@[0] != "ReconciliationRequired"@[0]);
    assert("UnownedArtifact"@[0] != "DriftedArtifact"@[0]);
    assert("ArtifactUnavailable"@[0] != "UnsupportedArtifact"@[0]);
    assert("ArtifactUnavailable"@[0] != "WorkspaceOutOfScope"@[0]);
    assert("ArtifactUnavailable"@[0] != "IntentStateConflict"@[0]);
    assert("ArtifactDigestMismatch"@[0] != "OperationStateConflict"@[0]);
    assert("ArtifactDigestMismatch"@[0] != "ReconciliationRequired"@[0]);
    assert("UnsupportedArtifact"@[0] != "WorkspaceOutOfScope"@[0]);
    assert("UnsupportedArtifact"@[0] != "IntentStateConflict"@[0]);
    assert("UnsupportedSideEffect"@[0] != "PreviewDigestMismatch"@[0]);
    assert("WorkspaceRevisionMismatch"@[9] != "WorkspaceLeaseUnavailable"@[9]);
    assert("WorkspaceOutOfScope"@[0] != "IntentStateConflict"@[0]);
    assert("OperationStateConflict"@[0] != "ReconciliationRequired"@[0]);
}

} // verus!
