//! What an image must be to go with a message, and what is kept and told of images.

use vstd::prelude::*;

use crate::digest::sha256_hex_of;
use crate::image_attachment::{
    attachment_ids, attachment_of, attachment_verdict, attachment_verdicts,
    complete_message_verdict, message_verdict, mime_extension, mime_text, placeholder, placeholders,
    presence_verdicts, short_digest_of, stripped, tiles, total_bytes, total_tokens, visual_tokens,
    ImageAttachmentView, ImageMimeType,
};
use crate::image_attachment::{MessageRole, ModelMessageView};
use crate::text::{byte_len, decimal};
use crate::value::{lemma_all_pass, repeats};

verus! {

/// The tiles of a length are the fewest of 28 pixels that cover it, and the tokens of an image are
/// the tiles of its area: the more of them the larger it is.
pub proof fn law_tiles_cover_the_image(width: u32, height: u32)
    ensures
        28 * tiles(width) >= width,
        28 * (tiles(width) - 1) < width,
        28 * tiles(height) >= height,
        28 * (tiles(height) - 1) < height,
        visual_tokens(width, height) == tiles(width) * tiles(height),
        visual_tokens(width, height) == visual_tokens(height, width),
{
    let a = tiles(width);
    let b = tiles(height);
    assert(a * b == b * a) by (nonlinear_arith);
}

/// Every format has its own media type and its own extension.
pub proof fn law_formats_have_their_names(m: ImageMimeType)
    ensures
        m == ImageMimeType::Png ==> mime_text(m) == "image/png"@ && mime_extension(m) == "png"@,
        m == ImageMimeType::Jpeg ==> mime_text(m) == "image/jpeg"@ && mime_extension(m) == "jpg"@,
        m == ImageMimeType::Webp ==> mime_text(m) == "image/webp"@ && mime_extension(m) == "webp"@,
{
}

/// A letter, a digit, a dash or an underscore.
pub open spec fn is_id_character(c: char) -> bool {
    ('a' <= c && c <= 'z') || ('A' <= c && c <= 'Z') || ('0' <= c && c <= '9') || c == '-' || c == '_'
}

/// A lowercase hexadecimal digit.
pub open spec fn is_digest_character(c: char) -> bool {
    ('a' <= c && c <= 'f') || ('0' <= c && c <= '9')
}

/// An attachment is good if and only if its identity is a plain name of at most 128 bytes; its
/// digest has 64 lowercase hexadecimal digits; both sides have from 1 to 8192 pixels, 16 million
/// together at most; it has from 1 byte to 8 MiB; its tokens are those of its size; it is stored
/// under its digest and the extension of its format; and its bytes, where they are there, have its
/// length and its digest.
pub proof fn law_attachments_are_exact(v: ImageAttachmentView)
    ensures
        attachment_verdict(v) is Ok <==> {
            &&& v.attachment_id.len() > 0
            &&& byte_len(v.attachment_id) <= 128
            &&& forall|i: int|
                0 <= i < v.attachment_id.len() ==> is_id_character(#[trigger] v.attachment_id[i])
            &&& byte_len(v.sha256) == 64
            &&& forall|i: int| 0 <= i < v.sha256.len() ==> is_digest_character(#[trigger] v.sha256[i])
            &&& 1 <= v.width <= 8192
            &&& 1 <= v.height <= 8192
            &&& v.width * v.height <= 16_000_000
            &&& 1 <= v.byte_len <= 8 * 1024 * 1024
            &&& v.estimated_visual_tokens == tiles(v.width) * tiles(v.height)
            &&& v.artifact_ref == v.sha256 + "."@ + mime_extension(v.mime_type)
            &&& v.resolved_bytes matches Some(bytes) ==> bytes.len() == v.byte_len && sha256_hex_of(bytes)
                == v.sha256
        },
{
    assert forall|i: int| 0 <= i < v.attachment_id.len() implies is_id_character(
        #[trigger] v.attachment_id[i],
    ) == crate::text::in_class(crate::text::CharClass::Name, v.attachment_id[i]) by {}
    assert forall|i: int| 0 <= i < v.sha256.len() implies is_digest_character(#[trigger] v.sha256[i])
        == crate::text::in_class(crate::text::CharClass::LowerHex, v.sha256[i]) by {}
}

/// An attachment of some bytes tells of exactly these bytes.
pub proof fn law_attachments_describe_their_bytes(
    id: Seq<char>,
    mime: ImageMimeType,
    width: u32,
    height: u32,
    bytes: Seq<u8>,
)
    requires
        bytes.len() <= u64::MAX,
    ensures
        ({
            let v = attachment_of(id, mime, width, height, bytes);
            &&& v.attachment_id == id
            &&& v.mime_type == mime
            &&& v.width == width
            &&& v.height == height
            &&& v.byte_len == bytes.len()
            &&& v.sha256 == sha256_hex_of(bytes)
            &&& v.artifact_ref == sha256_hex_of(bytes) + "."@ + mime_extension(mime)
            &&& v.resolved_bytes == Some(bytes)
        }),
{
}

/// The images of a message are good if and only if there are none, or the message is one of a user;
/// they are at most four, each of them is good, no two have one identity, and together they have at
/// most 24 MiB and 16384 tokens.
pub proof fn law_messages_are_exact(m: ModelMessageView)
    ensures
        ({
            let s = m.image_attachments;
            &&& message_verdict(m) is Ok <==> {
                &&& s.len() == 0 || m.role == MessageRole::User
                &&& s.len() <= 4
                &&& forall|i: int| 0 <= i < s.len() ==> attachment_verdict(#[trigger] s[i]) is Ok
                &&& forall|i: int, j: int|
                    0 <= i < j < s.len() ==> (#[trigger] s[i]).attachment_id != (
                    #[trigger] s[j]).attachment_id
                &&& total_bytes(s) <= 24 * 1024 * 1024
                &&& total_tokens(s) <= 16_384
            }
            &&& complete_message_verdict(m) is Ok <==> message_verdict(m) is Ok && forall|i: int|
                0 <= i < s.len() ==> (#[trigger] s[i]).resolved_bytes is Some
        }),
{
    let s = m.image_attachments;
    let all = attachment_verdicts(s);
    lemma_all_pass(all);
    let there = presence_verdicts(s);
    lemma_all_pass(there);
    if forall|i: int| 0 <= i < all.len() ==> (#[trigger] all[i]) is Ok {
        assert forall|i: int| 0 <= i < s.len() implies attachment_verdict(#[trigger] s[i]) is Ok by {
            assert(all[i] is Ok);
        }
        assert forall|i: int, j: int| 0 <= i < j < s.len() implies (#[trigger] s[i]).attachment_id != (
        #[trigger] s[j]).attachment_id by {
            assert(all[j] is Ok);
            let ids = attachment_ids(s);
            assert(!repeats(ids, j));
            assert(ids[i] != ids[j]);
        }
    }
    if (forall|i: int| 0 <= i < s.len() ==> attachment_verdict(#[trigger] s[i]) is Ok) && (forall|
        i: int,
        j: int,
    |
        0 <= i < j < s.len() ==> (#[trigger] s[i]).attachment_id != (#[trigger] s[j]).attachment_id) {
        assert forall|i: int| 0 <= i < all.len() implies (#[trigger] all[i]) is Ok by {
            let ids = attachment_ids(s);
            assert(attachment_verdict(s[i]) is Ok);
            if repeats(ids, i) {
                let j = choose|j: int| 0 <= j < i && #[trigger] ids[j] == ids[i];
                assert(s[j].attachment_id == s[i].attachment_id);
            }
        }
    }
    if forall|i: int| 0 <= i < there.len() ==> (#[trigger] there[i]) is Ok {
        assert forall|i: int| 0 <= i < s.len() implies (#[trigger] s[i]).resolved_bytes is Some by {
            assert(there[i] is Ok);
        }
    }
}

/// The totals of images add up, one by one.
pub proof fn law_totals_add_up(s: Seq<ImageAttachmentView>, v: ImageAttachmentView)
    ensures
        total_bytes(s.push(v)) == total_bytes(s) + v.byte_len,
        total_tokens(s.push(v)) == total_tokens(s) + v.estimated_visual_tokens,
        total_bytes(Seq::empty()) == 0,
        total_tokens(Seq::empty()) == 0,
{
    assert(s.push(v).drop_last() =~= s);
}

/// Taking the images out of a message leaves the rest of it as it is.
pub proof fn law_stripped_messages_keep_the_rest(m: ModelMessageView)
    ensures
        stripped(m).image_attachments.len() == 0,
        stripped(m).id == m.id,
        stripped(m).role == m.role,
        stripped(m).content == m.content,
{
}

/// The placeholder of an image tells its number, its media type, its size, its bytes and the start
/// of its digest, and the placeholders of a message stand one on each line, numbered from one.
pub proof fn law_placeholders_tell_the_image(s: Seq<ImageAttachmentView>, v: ImageAttachmentView, n: nat)
    ensures
        placeholder(n, v) == "[Image attachment "@ + decimal(n) + ": "@ + mime_text(v.mime_type) + "; "@
            + decimal(v.width as nat) + "x"@ + decimal(v.height as nat) + "; "@ + decimal(
            v.byte_len as nat,
        ) + " bytes; sha256="@ + short_digest_of(v.sha256) + "]"@,
        s.len() == 0 ==> placeholders(s.push(v)) == placeholder(1, v),
        s.len() > 0 ==> placeholders(s.push(v)) == placeholders(s) + "\n"@ + placeholder(s.len() + 1, v),
        placeholders(Seq::empty()).len() == 0,
{
    assert(s.push(v).drop_last() =~= s);
    assert(s.push(v).last() == v);
}

} // verus!
