//! Images that come with messages: their durable description, the bytes that belong to it, and the
//! limits on what one turn carries.

use vstd::prelude::*;

use crate::digest::{sha256_hex_of, sha256_lower_hex};
use crate::hosted::taken;
use crate::search::{any_where, has_any};
use crate::text::{
    all_of, byte_len, byte_length, decimal, decimal_text, every, is_lower_hex, joined, CharClass,
};
use crate::value::{
    chain, check, first_failure, lemma_failures_begin, lemma_failures_end, lemma_failures_step,
    outcome, reject, repeats, verdict, yields, KernelError, Value, Verdict,
};

verus! {

/// The most images that one turn carries.
pub const MAX_IMAGE_ATTACHMENTS_PER_TURN: usize = 4;

/// The most bytes of one image.
pub const MAX_IMAGE_ATTACHMENT_BYTES: u64 = 8_388_608;

/// The most bytes of all images of one turn.
pub const MAX_IMAGE_ATTACHMENT_BYTES_PER_TURN: u64 = 25_165_824;

/// The largest width and height of an image.
pub const MAX_IMAGE_ATTACHMENT_DIMENSION: u32 = 8_192;

/// The most pixels of an image.
pub const MAX_IMAGE_ATTACHMENT_PIXELS: u64 = 16_000_000;

/// The most visual tokens of all images of one turn.
pub const MAX_IMAGE_ATTACHMENT_VISUAL_TOKENS_PER_TURN: u64 = 16_384;

/// Image formats admitted by the provider-neutral V1 attachment contract.
#[derive(Debug, Clone, Copy, PartialEq, Eq, Structural)]
pub enum ImageMimeType {
    Png,
    Jpeg,
    Webp,
}

impl DeepView for ImageMimeType {
    type V = ImageMimeType;

    open spec fn deep_view(&self) -> ImageMimeType {
        *self
    }
}

impl Value for ImageMimeType {
    fn same(&self, other: &Self) -> (r: bool) {
        *self == *other
    }

    fn duplicate(&self) -> (r: Self) {
        *self
    }
}

/// Exact-model image input support declared by one provider implementation.
#[derive(Debug, Clone, Copy, PartialEq, Eq, Structural)]
pub enum ImageInputCapability {
    Unsupported,
    Supported,
}

impl DeepView for ImageInputCapability {
    type V = ImageInputCapability;

    open spec fn deep_view(&self) -> ImageInputCapability {
        *self
    }
}

impl Value for ImageInputCapability {
    fn same(&self, other: &Self) -> (r: bool) {
        *self == *other
    }

    fn duplicate(&self) -> (r: Self) {
        *self
    }
}

/// Provider-neutral durable image metadata plus optional process-local bytes.  `resolved_bytes` is
/// deliberately excluded from every serde surface. Durable session state, request prefix evidence,
/// exports, and compaction therefore retain only the content binding and controlled cache
/// reference.
#[derive(Clone, PartialEq, Eq)]
pub struct ImageAttachment {
    pub attachment_id: String,
    pub sha256: String,
    pub mime_type: ImageMimeType,
    pub width: u32,
    pub height: u32,
    pub byte_len: u64,
    pub estimated_visual_tokens: u64,
    pub artifact_ref: String,
    resolved_bytes: Option<Vec<u8>>,
}

/// What a [`ImageAttachment`] holds.
#[verifier::ext_equal]
pub struct ImageAttachmentView {
    pub attachment_id: Seq<char>,
    pub sha256: Seq<char>,
    pub mime_type: ImageMimeType,
    pub width: u32,
    pub height: u32,
    pub byte_len: u64,
    pub estimated_visual_tokens: u64,
    pub artifact_ref: Seq<char>,
    pub resolved_bytes: Option<Seq<u8>>,
}

impl DeepView for ImageAttachment {
    type V = ImageAttachmentView;

    closed spec fn deep_view(&self) -> ImageAttachmentView {
        ImageAttachmentView {
            attachment_id: self.attachment_id.deep_view(),
            sha256: self.sha256.deep_view(),
            mime_type: self.mime_type.deep_view(),
            width: self.width.deep_view(),
            height: self.height.deep_view(),
            byte_len: self.byte_len.deep_view(),
            estimated_visual_tokens: self.estimated_visual_tokens.deep_view(),
            artifact_ref: self.artifact_ref.deep_view(),
            resolved_bytes: self.resolved_bytes.deep_view(),
        }
    }
}

impl Value for ImageAttachment {
    fn same(&self, other: &Self) -> (r: bool) {
        self.attachment_id.same(&other.attachment_id)
            && self.sha256.same(&other.sha256)
            && self.mime_type.same(&other.mime_type)
            && self.width.same(&other.width)
            && self.height.same(&other.height)
            && self.byte_len.same(&other.byte_len)
            && self.estimated_visual_tokens.same(&other.estimated_visual_tokens)
            && self.artifact_ref.same(&other.artifact_ref)
            && self.resolved_bytes.same(&other.resolved_bytes)
    }

    fn duplicate(&self) -> (r: Self) {
        ImageAttachment {
            attachment_id: self.attachment_id.duplicate(),
            sha256: self.sha256.duplicate(),
            mime_type: self.mime_type.duplicate(),
            width: self.width.duplicate(),
            height: self.height.duplicate(),
            byte_len: self.byte_len.duplicate(),
            estimated_visual_tokens: self.estimated_visual_tokens.duplicate(),
            artifact_ref: self.artifact_ref.duplicate(),
            resolved_bytes: self.resolved_bytes.duplicate(),
        }
    }
}

/// Who speaks in a message.
#[derive(Debug, Clone, Copy, PartialEq, Eq, Structural)]
pub enum MessageRole {
    System,
    User,
    Assistant,
    Tool,
}

impl DeepView for MessageRole {
    type V = MessageRole;

    open spec fn deep_view(&self) -> MessageRole {
        *self
    }
}

impl Value for MessageRole {
    fn same(&self, other: &Self) -> (r: bool) {
        *self == *other
    }

    fn duplicate(&self) -> (r: Self) {
        *self
    }
}

/// A message to or from a model, with the images that come with it.
#[derive(Clone, PartialEq, Eq)]
pub struct ModelMessage {
    pub id: String,
    pub role: MessageRole,
    pub content: Option<String>,
    pub image_attachments: Vec<ImageAttachment>,
}

/// What a [`ModelMessage`] holds.
#[verifier::ext_equal]
pub struct ModelMessageView {
    pub id: Seq<char>,
    pub role: MessageRole,
    pub content: Option<Seq<char>>,
    pub image_attachments: Seq<ImageAttachmentView>,
}

impl DeepView for ModelMessage {
    type V = ModelMessageView;

    open spec fn deep_view(&self) -> ModelMessageView {
        ModelMessageView {
            id: self.id.deep_view(),
            role: self.role.deep_view(),
            content: self.content.deep_view(),
            image_attachments: self.image_attachments.deep_view(),
        }
    }
}

impl Value for ModelMessage {
    fn same(&self, other: &Self) -> (r: bool) {
        self.id.same(&other.id)
            && self.role.same(&other.role)
            && self.content.same(&other.content)
            && self.image_attachments.same(&other.image_attachments)
    }

    fn duplicate(&self) -> (r: Self) {
        ModelMessage {
            id: self.id.duplicate(),
            role: self.role.duplicate(),
            content: self.content.duplicate(),
            image_attachments: self.image_attachments.duplicate(),
        }
    }
}

/// A request for a completion.
#[derive(Clone, PartialEq, Eq)]
pub struct CompletionRequest {
    pub model_name: String,
    pub messages: Vec<ModelMessage>,
}

/// What a [`CompletionRequest`] holds.
#[verifier::ext_equal]
pub struct CompletionRequestView {
    pub model_name: Seq<char>,
    pub messages: Seq<ModelMessageView>,
}

impl DeepView for CompletionRequest {
    type V = CompletionRequestView;

    open spec fn deep_view(&self) -> CompletionRequestView {
        CompletionRequestView {
            model_name: self.model_name.deep_view(),
            messages: self.messages.deep_view(),
        }
    }
}

impl Value for CompletionRequest {
    fn same(&self, other: &Self) -> (r: bool) {
        self.model_name.same(&other.model_name)
            && self.messages.same(&other.messages)
    }

    fn duplicate(&self) -> (r: Self) {
        CompletionRequest {
            model_name: self.model_name.duplicate(),
            messages: self.messages.duplicate(),
        }
    }
}

impl Default for ImageInputCapability {
    fn default() -> (r: Self)
        ensures
            r == ImageInputCapability::Unsupported,
    {
        ImageInputCapability::Unsupported
    }
}

/// The media type of an image format.
pub open spec fn mime_text(m: ImageMimeType) -> Seq<char> {
    match m {
        ImageMimeType::Png => "image/png"@,
        ImageMimeType::Jpeg => "image/jpeg"@,
        ImageMimeType::Webp => "image/webp"@,
    }
}

/// The file extension of an image format.
pub open spec fn mime_extension(m: ImageMimeType) -> Seq<char> {
    match m {
        ImageMimeType::Png => "png"@,
        ImageMimeType::Jpeg => "jpg"@,
        ImageMimeType::Webp => "webp"@,
    }
}

impl ImageMimeType {
    /// The media type.
    pub fn as_str(self) -> (r: &'static str)
        ensures
            r@ == mime_text(self),
    {
        match self {
            ImageMimeType::Png => "image/png",
            ImageMimeType::Jpeg => "image/jpeg",
            ImageMimeType::Webp => "image/webp",
        }
    }

    /// The file extension.
    pub fn extension(self) -> (r: &'static str)
        ensures
            r@ == mime_extension(self),
    {
        match self {
            ImageMimeType::Png => "png",
            ImageMimeType::Jpeg => "jpg",
            ImageMimeType::Webp => "webp",
        }
    }
}

impl ImageInputCapability {
    /// Tells whether images are supported.
    pub fn is_supported(self) -> (r: bool)
        ensures
            r == (self == ImageInputCapability::Supported),
    {
        match self {
            ImageInputCapability::Supported => true,
            ImageInputCapability::Unsupported => false,
        }
    }
}

/// The number of tiles of 28 pixels that cover a length.
pub open spec fn tiles(length: u32) -> int {
    (length + 27) / 28
}

/// The visual tokens of an image: one for every tile of 28 by 28 pixels.
pub open spec fn visual_tokens(width: u32, height: u32) -> int {
    tiles(width) * tiles(height)
}

proof fn lemma_visual_tokens_bound(width: u32, height: u32, bound: int)
    requires
        tiles(width) <= bound,
        tiles(height) <= bound,
    ensures
        0 <= visual_tokens(width, height) <= bound * bound,
{
    let a = tiles(width);
    let b = tiles(height);
    assert(0 <= a * b <= bound * bound) by (nonlinear_arith)
        requires
            0 <= a <= bound,
            0 <= b <= bound,
    ;
}

/// Estimates the visual tokens of an image.
pub fn estimate_visual_tokens(width: u32, height: u32) -> (r: u64)
    ensures
        r == visual_tokens(width, height),
{
    let across: u64 = (width as u64 + 27) / 28;
    let down: u64 = (height as u64 + 27) / 28;
    proof {
        lemma_visual_tokens_bound(width, height, 153391690);
        assert(153391690int * 153391690int <= u64::MAX) by (nonlinear_arith);
    }
    across * down
}

/// The check of the identity of an attachment.
pub open spec fn attachment_id_verdict(id: Seq<char>) -> Verdict {
    check(
        id.len() > 0 && byte_len(id) <= 128 && every(CharClass::Name, id),
        "image attachment id is invalid"@,
    )
}

/// The check of a digest.
pub open spec fn attachment_digest_verdict(digest: Seq<char>) -> Verdict {
    check(
        byte_len(digest) == 64 && is_lower_hex(digest),
        "image attachment SHA-256 must be 64 lowercase hexadecimal characters"@,
    )
}

/// The canonical reference of the stored bytes: their digest, and the extension of their format.
pub open spec fn artifact_ref_of(digest: Seq<char>, mime: ImageMimeType) -> Seq<char> {
    digest + "."@ + mime_extension(mime)
}

/// The check that the bytes belong to the description.
pub open spec fn bytes_verdict(v: ImageAttachmentView) -> Verdict {
    match v.resolved_bytes {
        None => Ok(()),
        Some(bytes) => chain(
            check(
                bytes.len() == v.byte_len,
                "resolved image attachment byte length does not match metadata"@,
            ),
            check(
                sha256_hex_of(bytes) == v.sha256,
                "resolved image attachment hash does not match metadata"@,
            ),
        ),
    }
}

/// The check of an attachment: of its description, and of its bytes where they are there.
pub open spec fn attachment_verdict(v: ImageAttachmentView) -> Verdict {
    chain(
        attachment_id_verdict(v.attachment_id),
        chain(
            attachment_digest_verdict(v.sha256),
            chain(
                check(
                    v.width > 0 && v.height > 0,
                    "image attachment dimensions must be non-zero"@,
                ),
                chain(
                    check(
                        v.width <= MAX_IMAGE_ATTACHMENT_DIMENSION && v.height
                            <= MAX_IMAGE_ATTACHMENT_DIMENSION,
                        "image attachment exceeds the maximum dimension"@,
                    ),
                    chain(
                        check(
                            v.width * v.height <= MAX_IMAGE_ATTACHMENT_PIXELS,
                            "image attachment exceeds the maximum pixel count"@,
                        ),
                        chain(
                            check(
                                0 < v.byte_len <= MAX_IMAGE_ATTACHMENT_BYTES,
                                "image attachment byte length is outside the V1 limit"@,
                            ),
                            chain(
                                check(
                                    v.estimated_visual_tokens == visual_tokens(v.width, v.height),
                                    "image attachment visual-token estimate does not match its dimensions"@,
                                ),
                                chain(
                                    check(
                                        v.artifact_ref == artifact_ref_of(v.sha256, v.mime_type),
                                        "image attachment artifact reference is not canonical"@,
                                    ),
                                    bytes_verdict(v),
                                ),
                            ),
                        ),
                    ),
                ),
            ),
        ),
    )
}

/// The attachment of some bytes.
pub open spec fn attachment_of(
    id: Seq<char>,
    mime: ImageMimeType,
    width: u32,
    height: u32,
    bytes: Seq<u8>,
) -> ImageAttachmentView {
    ImageAttachmentView {
        attachment_id: id,
        sha256: sha256_hex_of(bytes),
        mime_type: mime,
        width,
        height,
        byte_len: bytes.len() as u64,
        estimated_visual_tokens: visual_tokens(width, height) as u64,
        artifact_ref: artifact_ref_of(sha256_hex_of(bytes), mime),
        resolved_bytes: Some(bytes),
    }
}

/// An attachment with other bytes.
pub open spec fn with_bytes(v: ImageAttachmentView, bytes: Option<Seq<u8>>) -> ImageAttachmentView {
    ImageAttachmentView { resolved_bytes: bytes, ..v }
}

fn artifact_ref_text(digest: &str, mime: ImageMimeType) -> (r: String)
    ensures
        r@ == artifact_ref_of(digest@, mime),
{
    let mut r = digest.to_owned();
    r.append(".");
    r.append(mime.extension());
    r
}

impl ImageAttachment {
    /// Makes an attachment of bytes whose format and dimensions are known already. Digest, reference
    /// and visual tokens follow from them.
    pub fn from_bytes(
        attachment_id: &str,
        mime_type: ImageMimeType,
        width: u32,
        height: u32,
        bytes: Vec<u8>,
    ) -> (r: Result<Self, KernelError>)
        ensures
            outcome(r) == yields(
                attachment_verdict(
                    attachment_of(attachment_id@, mime_type, width, height, bytes@),
                ),
                attachment_of(attachment_id@, mime_type, width, height, bytes@),
            ),
    {
        let sha256 = sha256_lower_hex(bytes.as_slice());
        let artifact_ref = artifact_ref_text(sha256.as_str(), mime_type);
        let ghost view = bytes@;
        assert(bytes.deep_view() =~= bytes@);
        let attachment = ImageAttachment {
            attachment_id: attachment_id.to_owned(),
            sha256,
            mime_type,
            width,
            height,
            byte_len: bytes.len() as u64,
            estimated_visual_tokens: estimate_visual_tokens(width, height),
            artifact_ref,
            resolved_bytes: Some(bytes),
        };
        assert(attachment.deep_view() == attachment_of(
            attachment_id@,
            mime_type,
            width,
            height,
            view,
        ));
        attachment.validate()?;
        Ok(attachment)
    }

    /// The attachment of a description as it is kept durably. Nothing is checked.
    pub fn unresolved(
        attachment_id: String,
        sha256: String,
        mime_type: ImageMimeType,
        width: u32,
        height: u32,
        byte_len: u64,
        estimated_visual_tokens: u64,
        artifact_ref: String,
    ) -> (r: Self)
        ensures
            r.deep_view() == (ImageAttachmentView {
                attachment_id: attachment_id@,
                sha256: sha256@,
                mime_type,
                width,
                height,
                byte_len,
                estimated_visual_tokens,
                artifact_ref: artifact_ref@,
                resolved_bytes: None,
            }),
    {
        ImageAttachment {
            attachment_id,
            sha256,
            mime_type,
            width,
            height,
            byte_len,
            estimated_visual_tokens,
            artifact_ref,
            resolved_bytes: None,
        }
    }

    /// Checks the description, and that the bytes belong to it where they are there.
    pub fn validate(&self) -> (r: Result<(), KernelError>)
        ensures
            verdict(r) == attachment_verdict(self.deep_view()),
    {
        let id = self.attachment_id.as_str();
        if id.is_empty() || byte_length(id) > 128 || !all_of(CharClass::Name, id) {
            return reject("image attachment id is invalid");
        }
        let digest = self.sha256.as_str();
        if byte_length(digest) != 64 || !all_of(CharClass::LowerHex, digest) {
            return reject("image attachment SHA-256 must be 64 lowercase hexadecimal characters");
        }
        if self.width == 0 || self.height == 0 {
            return reject("image attachment dimensions must be non-zero");
        }
        if self.width > MAX_IMAGE_ATTACHMENT_DIMENSION || self.height
            > MAX_IMAGE_ATTACHMENT_DIMENSION {
            return reject("image attachment exceeds the maximum dimension");
        }
        let across: u64 = self.width as u64;
        let down: u64 = self.height as u64;
        assert(across * down <= 8192 * 8192) by (nonlinear_arith)
            requires
                across <= 8192,
                down <= 8192,
        ;
        if across * down > MAX_IMAGE_ATTACHMENT_PIXELS {
            return reject("image attachment exceeds the maximum pixel count");
        }
        if self.byte_len == 0 || self.byte_len > MAX_IMAGE_ATTACHMENT_BYTES {
            return reject("image attachment byte length is outside the V1 limit");
        }
        if self.estimated_visual_tokens != estimate_visual_tokens(self.width, self.height) {
            return reject(
                "image attachment visual-token estimate does not match its dimensions",
            );
        }
        let expected = artifact_ref_text(digest, self.mime_type);
        if self.artifact_ref != expected {
            return reject("image attachment artifact reference is not canonical");
        }
        if let Some(bytes) = &self.resolved_bytes {
            assert(bytes.deep_view() =~= bytes@);
            if bytes.len() as u64 != self.byte_len {
                return reject("resolved image attachment byte length does not match metadata");
            }
            let observed = sha256_lower_hex(bytes.as_slice());
            if observed != self.sha256 {
                return reject("resolved image attachment hash does not match metadata");
            }
        }
        Ok(())
    }

    /// The attachment without its bytes, as it is kept durably.
    pub fn without_resolved_bytes(&self) -> (r: Self)
        ensures
            r.deep_view() == with_bytes(self.deep_view(), None),
    {
        let mut durable = self.duplicate();
        durable.resolved_bytes = None;
        durable
    }

    /// Sets the bytes, if they belong to the description; else everything stays as it is.
    pub fn set_resolved_bytes(&mut self, bytes: Vec<u8>) -> (r: Result<(), KernelError>)
        ensures
            verdict(r) == attachment_verdict(with_bytes(old(self).deep_view(), Some(bytes@))),
            final(self).deep_view() == if r is Ok {
                with_bytes(old(self).deep_view(), Some(bytes@))
            } else {
                old(self).deep_view()
            },
    {
        let ghost view = bytes@;
        assert(bytes.deep_view() =~= bytes@);
        let mut changed = self.duplicate();
        changed.resolved_bytes = Some(bytes);
        assert(changed.deep_view() == with_bytes(old(self).deep_view(), Some(view)));
        changed.validate()?;
        *self = changed;
        Ok(())
    }

    /// Takes what a resolver came back with.
    pub fn accept_resolved(&mut self, resolved: Result<Vec<u8>, KernelError>) -> (r: Result<
        (),
        KernelError,
    >)
        ensures
            match resolved {
                Err(e) => verdict(r) == Err::<(), Seq<char>>(e.deep_view())
                    && final(self).deep_view() == old(self).deep_view(),
                Ok(bytes) => verdict(r) == attachment_verdict(
                    with_bytes(old(self).deep_view(), Some(bytes@)),
                ) && final(self).deep_view() == if r is Ok {
                    with_bytes(old(self).deep_view(), Some(bytes@))
                } else {
                    old(self).deep_view()
                },
            },
    {
        match resolved {
            Err(e) => Err(e),
            Ok(bytes) => self.set_resolved_bytes(bytes),
        }
    }

    /// Tells whether the bytes are there.
    pub fn has_resolved_bytes(&self) -> (r: bool)
        ensures
            r == (self.deep_view().resolved_bytes is Some),
    {
        self.resolved_bytes.is_some()
    }

    /// The bytes.
    pub fn resolved_bytes(&self) -> (r: Result<&[u8], KernelError>)
        ensures
            match self.deep_view().resolved_bytes {
                Some(bytes) => r matches Ok(b) && b@ == bytes,
                None => r matches Err(e) && e.deep_view()
                    == "image attachment bytes are not resolved"@,
            },
    {
        match &self.resolved_bytes {
            Some(bytes) => {
                assert(bytes.deep_view() =~= bytes@);
                Ok(bytes.as_slice())
            },
            None => Err(KernelError::new("image attachment bytes are not resolved")),
        }
    }
}

/// The way from the description of an attachment to its bytes.
pub trait ImageAttachmentResolver {
    /// Finds the bytes of an attachment.
    fn resolve(&self, attachment: &ImageAttachment) -> Result<Vec<u8>, KernelError>;
}

// Messages.

/// The identities of attachments.
pub open spec fn attachment_ids(s: Seq<ImageAttachmentView>) -> Seq<Seq<char>> {
    Seq::new(s.len(), |i: int| s[i].attachment_id)
}

/// The checks of the attachments of a message: each for itself, and none with the identity of one
/// before it.
pub open spec fn attachment_verdicts(s: Seq<ImageAttachmentView>) -> Seq<Verdict> {
    Seq::new(
        s.len(),
        |i: int|
            chain(
                attachment_verdict(s[i]),
                check(
                    !repeats(attachment_ids(s), i),
                    "user message contains a duplicate image attachment id"@,
                ),
            ),
    )
}

/// The bytes of all attachments together.
pub open spec fn total_bytes(s: Seq<ImageAttachmentView>) -> nat
    decreases s.len(),
{
    if s.len() == 0 {
        0
    } else {
        total_bytes(s.drop_last()) + s.last().byte_len as nat
    }
}

/// The visual tokens of all attachments together.
pub open spec fn total_tokens(s: Seq<ImageAttachmentView>) -> nat
    decreases s.len(),
{
    if s.len() == 0 {
        0
    } else {
        total_tokens(s.drop_last()) + s.last().estimated_visual_tokens as nat
    }
}

/// The check of the attachments of a message.
pub open spec fn message_verdict(m: ModelMessageView) -> Verdict {
    let s = m.image_attachments;
    chain(
        check(
            s.len() == 0 || m.role == MessageRole::User,
            "only user messages may carry image attachments"@,
        ),
        chain(
            check(
                s.len() <= MAX_IMAGE_ATTACHMENTS_PER_TURN,
                "user message exceeds the image attachment count limit"@,
            ),
            chain(
                first_failure(attachment_verdicts(s)),
                chain(
                    check(
                        total_bytes(s) <= MAX_IMAGE_ATTACHMENT_BYTES_PER_TURN,
                        "user message exceeds the image attachment byte limit"@,
                    ),
                    check(
                        total_tokens(s) <= MAX_IMAGE_ATTACHMENT_VISUAL_TOKENS_PER_TURN,
                        "user message exceeds the image attachment visual-token limit"@,
                    ),
                ),
            ),
        ),
    )
}

/// Whether an attachment has the identity of one before it.
fn repeats_id(s: &Vec<ImageAttachment>, i: usize) -> (r: bool)
    requires
        i < s.len(),
    ensures
        r == repeats(attachment_ids(s.deep_view()), i as int),
{
    let ghost ids = attachment_ids(s.deep_view());
    let mut j: usize = 0;
    while j < i
        invariant
            j <= i < s.len(),
            ids == attachment_ids(s.deep_view()),
            forall|k: int| 0 <= k < j ==> ids[k] != ids[i as int],
        decreases i - j,
    {
        assert(ids[j as int] == s@[j as int].attachment_id@);
        assert(ids[i as int] == s@[i as int].attachment_id@);
        if s[j].attachment_id == s[i].attachment_id {
            return true;
        }
        j = j + 1;
    }
    false
}

/// Checks the attachments of a message: only users send images, and only so many of so many bytes and
/// visual tokens.
pub fn validate_message_image_attachments(message: &ModelMessage) -> (r: Result<(), KernelError>)
    ensures
        verdict(r) == message_verdict(message.deep_view()),
{
    let attachments = &message.image_attachments;
    let ghost s = attachments.deep_view();
    if attachments.len() != 0 && message.role != MessageRole::User {
        return reject("only user messages may carry image attachments");
    }
    if attachments.len() > MAX_IMAGE_ATTACHMENTS_PER_TURN {
        return reject("user message exceeds the image attachment count limit");
    }
    let ghost all = attachment_verdicts(s);
    let mut bytes: u64 = 0;
    let mut tokens: u64 = 0;
    let mut i: usize = 0;
    proof {
        lemma_failures_begin(all);
        assert(s.take(0) =~= Seq::empty());
    }
    while i < attachments.len()
        invariant
            i <= attachments.len() <= MAX_IMAGE_ATTACHMENTS_PER_TURN,
            s == attachments.deep_view(),
            s == message.deep_view().image_attachments,
            attachments.len() == 0 || message.role == MessageRole::User,
            all == attachment_verdicts(s),
            first_failure(all) == first_failure(all.skip(i as int)),
            bytes == total_bytes(s.take(i as int)),
            tokens == total_tokens(s.take(i as int)),
            bytes <= i * 8_388_608,
            tokens <= i * 100_000,
        decreases attachments.len() - i,
    {
        proof {
            lemma_failures_step(all, i as int);
            assert(s.take(i + 1).drop_last() =~= s.take(i as int));
            assert(s.take(i + 1).last() == attachments@[i as int].deep_view());
        }
        attachments[i].validate()?;
        if repeats_id(attachments, i) {
            return reject("user message contains a duplicate image attachment id");
        }
        proof {
            let v = attachments@[i as int].deep_view();
            lemma_visual_tokens_bound(v.width, v.height, 293);
        }
        bytes = bytes + attachments[i].byte_len;
        tokens = tokens + attachments[i].estimated_visual_tokens;
        i = i + 1;
    }
    proof {
        lemma_failures_end(all);
        assert(s.take(i as int) =~= s);
    }
    if bytes > MAX_IMAGE_ATTACHMENT_BYTES_PER_TURN {
        return reject("user message exceeds the image attachment byte limit");
    }
    if tokens > MAX_IMAGE_ATTACHMENT_VISUAL_TOKENS_PER_TURN {
        return reject("user message exceeds the image attachment visual-token limit");
    }
    Ok(())
}

/// The checks of the attachments of all messages.
pub open spec fn message_verdicts(messages: Seq<ModelMessageView>) -> Seq<Verdict> {
    Seq::new(messages.len(), |i: int| message_verdict(messages[i]))
}

/// Checks the attachments of all messages of a request.
pub fn validate_request_image_attachments(request: &CompletionRequest) -> (r: Result<(), KernelError>)
    ensures
        verdict(r) == first_failure(message_verdicts(request.deep_view().messages)),
{
    let ghost s = request.deep_view().messages;
    let ghost all = message_verdicts(s);
    let mut i: usize = 0;
    proof {
        lemma_failures_begin(all);
    }
    while i < request.messages.len()
        invariant
            i <= request.messages.len(),
            s == request.deep_view().messages,
            all == message_verdicts(s),
            first_failure(all) == first_failure(all.skip(i as int)),
        decreases request.messages.len() - i,
    {
        proof {
            lemma_failures_step(all, i as int);
            assert(s[i as int] == request.messages@[i as int].deep_view());
        }
        validate_message_image_attachments(&request.messages[i])?;
        i = i + 1;
    }
    proof {
        lemma_failures_end(all);
    }
    Ok(())
}

/// The message carries an image.
pub open spec fn carries_image() -> spec_fn(ModelMessageView) -> bool {
    |m: ModelMessageView| m.image_attachments.len() > 0
}

/// Checks that a model takes the images of a request.
pub fn validate_image_input_capability(
    capability: ImageInputCapability,
    request: &CompletionRequest,
) -> (r: Result<(), KernelError>)
    ensures
        verdict(r) == check(
            capability == ImageInputCapability::Supported || !any_where(
                request.deep_view().messages,
                carries_image(),
            ),
            "provider model "@ + request.deep_view().model_name
                + " does not support image input"@,
        ),
{
    let ghost p = carries_image();
    let carried = has_any(
        &request.messages,
        |m: &ModelMessage| -> (b: bool)
            ensures
                b == p(m.deep_view())
            { m.image_attachments.len() > 0 },
        Ghost(p),
    );
    if carried && !capability.is_supported() {
        let start = joined("provider model ", request.model_name.as_str());
        return Err(
            KernelError { message: joined(start.as_str(), " does not support image input") },
        );
    }
    Ok(())
}

// Bytes of a request.

/// What is said of an attachment whose bytes nobody finds.
pub open spec fn unavailable_message(id: Seq<char>) -> Seq<char> {
    "image attachment "@ + id
        + " is unavailable; reattach the image or restore the controlled cache"@
}

/// The checks that the bytes of attachments are there.
pub open spec fn presence_verdicts(s: Seq<ImageAttachmentView>) -> Seq<Verdict> {
    Seq::new(
        s.len(),
        |i: int| check(s[i].resolved_bytes is Some, unavailable_message(s[i].attachment_id)),
    )
}

/// The check of a message whose bytes must be there already.
pub open spec fn complete_message_verdict(m: ModelMessageView) -> Verdict {
    chain(message_verdict(m), first_failure(presence_verdicts(m.image_attachments)))
}

/// The checks of all messages whose bytes must be there already.
pub open spec fn complete_message_verdicts(messages: Seq<ModelMessageView>) -> Seq<Verdict> {
    Seq::new(messages.len(), |i: int| complete_message_verdict(messages[i]))
}

/// A resolver may come back with something when it is asked for the bytes of an attachment.
pub open spec fn is_answer<R: ImageAttachmentResolver>(
    resolver: &R,
    a: ImageAttachmentView,
    found: Result<Vec<u8>, KernelError>,
) -> bool {
    exists|x: ImageAttachment|
        x.deep_view() == a && #[trigger] call_ensures(R::resolve, (resolver, &x), found)
}

/// Bytes are an answer of the resolver to an attachment.
pub open spec fn are_found<R: ImageAttachmentResolver>(
    resolver: Option<&R>,
    a: ImageAttachmentView,
    bytes: Seq<u8>,
) -> bool {
    resolver matches Some(asked) && exists|found: Vec<u8>|
        found@ == bytes && #[trigger] is_answer(asked, a, Ok(found))
}

/// An answer of the resolver to an attachment without bytes fails in some way: it is an error, or it
/// holds bytes that do not belong to the attachment.
pub open spec fn is_failed_answer<R: ImageAttachmentResolver>(
    resolver: Option<&R>,
    a: ImageAttachmentView,
    failure: Verdict,
) -> bool {
    &&& a.resolved_bytes is None
    &&& failure is Err
    &&& resolver matches Some(asked)
    &&& exists|found: Result<Vec<u8>, KernelError>| #[trigger]
        is_answer(asked, a, found) && failure == (match found {
            Err(e) => Err(e.deep_view()),
            Ok(bytes) => attachment_verdict(with_bytes(a, Some(bytes@))),
        })
}

/// An answer of the resolver to some attachment of a message fails in some way.
pub open spec fn has_failed_answer<R: ImageAttachmentResolver>(
    resolver: Option<&R>,
    m: ModelMessageView,
    failure: Verdict,
) -> bool {
    exists|k: int|
        0 <= k < m.image_attachments.len() && is_failed_answer(
            resolver,
            #[trigger] m.image_attachments[k],
            failure,
        )
}

/// One attachment is the other, but for bytes that were not there before: those are an answer of the
/// resolver, and belong to the attachment.
pub open spec fn filled_attachment<R: ImageAttachmentResolver>(
    resolver: Option<&R>,
    a: ImageAttachmentView,
    b: ImageAttachmentView,
) -> bool {
    &&& with_bytes(b, None) == with_bytes(a, None)
    &&& a.resolved_bytes is Some ==> b == a
    &&& b.resolved_bytes is Some && a.resolved_bytes is None ==> attachment_verdict(b) is Ok
        && are_found(resolver, a, b.resolved_bytes->0)
}

/// One message is the other, but for bytes that were not there before.
pub open spec fn filled_message<R: ImageAttachmentResolver>(
    resolver: Option<&R>,
    a: ModelMessageView,
    b: ModelMessageView,
) -> bool {
    &&& b == ModelMessageView { image_attachments: b.image_attachments, ..a }
    &&& b.image_attachments.len() == a.image_attachments.len()
    &&& forall|k: int|
        0 <= k < a.image_attachments.len() ==> filled_attachment(
            resolver,
            a.image_attachments[k],
            #[trigger] b.image_attachments[k],
        )
}

/// One request is the other, but for bytes that were not there before.
pub open spec fn filled_request<R: ImageAttachmentResolver>(
    resolver: Option<&R>,
    a: CompletionRequestView,
    b: CompletionRequestView,
) -> bool {
    &&& b.model_name == a.model_name
    &&& b.messages.len() == a.messages.len()
    &&& forall|i: int|
        0 <= i < a.messages.len() ==> filled_message(
            resolver,
            a.messages[i],
            #[trigger] b.messages[i],
        )
}

/// A message of a request makes it fail: those before it are valid, and it is invalid itself, or an
/// answer of the resolver to one of its attachments fails.
pub open spec fn fails_at<R: ImageAttachmentResolver>(
    resolver: Option<&R>,
    messages: Seq<ModelMessageView>,
    i: int,
    failure: Verdict,
) -> bool {
    &&& 0 <= i < messages.len()
    &&& forall|j: int| 0 <= j < i ==> message_verdict(#[trigger] messages[j]) is Ok
    &&& match message_verdict(messages[i]) {
        Err(m) => failure == Err::<(), Seq<char>>(m),
        Ok(_) => has_failed_answer(resolver, messages[i], failure),
    }
}

/// Every attachment of a message has its bytes.
pub open spec fn message_is_resolved(m: ModelMessageView) -> bool {
    forall|k: int|
        0 <= k < m.image_attachments.len() ==> (
        #[trigger] m.image_attachments[k]).resolved_bytes is Some
}

/// Every attachment of a request has its bytes.
pub open spec fn request_is_resolved(q: CompletionRequestView) -> bool {
    forall|i: int| 0 <= i < q.messages.len() ==> message_is_resolved(#[trigger] q.messages[i])
}

fn resolve_message<R: ImageAttachmentResolver>(message: &mut ModelMessage, resolver: Option<&R>) -> (r:
    Result<(), KernelError>)
    ensures
        filled_message(resolver, old(message).deep_view(), final(message).deep_view()),
        r is Err && resolver is Some && message_verdict(old(message).deep_view()) is Ok
            ==> has_failed_answer(resolver, old(message).deep_view(), verdict(r)),
        r is Ok ==> message_verdict(old(message).deep_view()) is Ok && message_is_resolved(
            final(message).deep_view(),
        ),
        message_verdict(old(message).deep_view()) is Err ==> verdict(r) == message_verdict(
            old(message).deep_view(),
        ),
        resolver is None || message_is_resolved(old(message).deep_view()) ==> verdict(r)
            == complete_message_verdict(old(message).deep_view()) && final(message).deep_view()
            == old(message).deep_view(),
{
    let ghost before = message.deep_view();
    let ghost s = before.image_attachments;
    let ghost all = presence_verdicts(s);
    validate_message_image_attachments(message)?;
    let mut k: usize = 0;
    proof {
        lemma_failures_begin(all);
    }
    while k < message.image_attachments.len()
        invariant
            k <= message.image_attachments.len(),
            before == old(message).deep_view(),
            s == before.image_attachments,
            all == presence_verdicts(s),
            message_verdict(before) is Ok,
            filled_message(resolver, before, message.deep_view()),
            forall|j: int| k <= j < s.len() ==> #[trigger] message.deep_view().image_attachments[j]
                == s[j],
            forall|j: int|
                0 <= j < k ==> (
                #[trigger] message.deep_view().image_attachments[j]).resolved_bytes is Some,
            resolver is None || message_is_resolved(before) ==> message.deep_view() == before
                && first_failure(all) == first_failure(all.skip(k as int)),
        decreases message.image_attachments.len() - k,
    {
        proof {
            lemma_failures_step(all, k as int);
        }
        let ghost had = message.deep_view();
        assert(had.image_attachments[k as int] == message.image_attachments@[k as int].deep_view());
        assert(filled_attachment(resolver, s[k as int], had.image_attachments[k as int]));
        if !message.image_attachments[k].has_resolved_bytes() {
            let asked = match resolver {
                None => {
                    let start = joined(
                        "image attachment ",
                        message.image_attachments[k].attachment_id.as_str(),
                    );
                    return Err(
                        KernelError {
                            message: joined(
                                start.as_str(),
                                " is unavailable; reattach the image or restore the controlled cache",
                            ),
                        },
                    );
                },
                Some(asked) => asked,
            };
            let mut changed = message.image_attachments[k].duplicate();
            let ghost question = changed;
            let found = asked.resolve(&changed);
            let ghost answer = found;
            let taken = changed.accept_resolved(found);
            let ghost view = changed.deep_view();
            proof {
                assert(question.deep_view() == s[k as int]);
                assert(call_ensures(R::resolve, (asked, &question), answer));
                assert(is_answer(asked, s[k as int], answer));
                if taken is Ok {
                    let bytes = answer->Ok_0;
                    assert(is_answer(asked, s[k as int], Ok(bytes)));
                    assert(are_found(resolver, s[k as int], bytes@));
                } else {
                    assert(is_failed_answer(resolver, s[k as int], verdict(taken)));
                }
            }
            message.image_attachments.set(k, changed);
            assert(message.deep_view().image_attachments =~= had.image_attachments.update(
                k as int,
                view,
            ));
            taken?;
        }
        k = k + 1;
    }
    proof {
        lemma_failures_end(all);
    }
    Ok(())
}

/// Finds the bytes that are missing in a request. Whatever the resolver comes back with, descriptions
/// stay as they are, bytes that were there stay, and bytes that are added are an answer of the resolver
/// and belong to their description. A failure is that of the first invalid message, or comes from an
/// answer of the resolver to a message before it.
pub fn resolve_request_image_attachments<R: ImageAttachmentResolver>(
    request: &mut CompletionRequest,
    resolver: Option<&R>,
) -> (r: Result<(), KernelError>)
    ensures
        filled_request(resolver, old(request).deep_view(), final(request).deep_view()),
        r is Err && resolver is Some ==> exists|i: int| #[trigger]
            fails_at(resolver, old(request).deep_view().messages, i, verdict(r)),
        r is Ok ==> request_is_resolved(final(request).deep_view()) && first_failure(
            message_verdicts(old(request).deep_view().messages),
        ) is Ok,
        resolver is None || request_is_resolved(old(request).deep_view()) ==> verdict(r)
            == first_failure(complete_message_verdicts(old(request).deep_view().messages))
            && final(request).deep_view() == old(request).deep_view(),
{
    let ghost before = request.deep_view();
    let ghost s = before.messages;
    let ghost all = complete_message_verdicts(s);
    let ghost plain = message_verdicts(s);
    let mut i: usize = 0;
    proof {
        lemma_failures_begin(all);
        lemma_failures_begin(plain);
    }
    while i < request.messages.len()
        invariant
            i <= request.messages.len(),
            before == old(request).deep_view(),
            s == before.messages,
            all == complete_message_verdicts(s),
            plain == message_verdicts(s),
            filled_request(resolver, before, request.deep_view()),
            forall|j: int| 0 <= j < i ==> message_verdict(#[trigger] s[j]) is Ok,
            first_failure(plain) == first_failure(plain.skip(i as int)),
            forall|j: int| i <= j < s.len() ==> #[trigger] request.deep_view().messages[j] == s[j],
            forall|j: int|
                0 <= j < i ==> message_is_resolved(#[trigger] request.deep_view().messages[j]),
            resolver is None || request_is_resolved(before) ==> request.deep_view() == before
                && first_failure(all) == first_failure(all.skip(i as int)),
        decreases request.messages.len() - i,
    {
        proof {
            lemma_failures_step(all, i as int);
            lemma_failures_step(plain, i as int);
        }
        let ghost had = request.deep_view();
        assert(had.messages[i as int] == request.messages@[i as int].deep_view());
        assert(had.messages[i as int] == s[i as int]);
        let mut changed = request.messages[i].duplicate();
        let taken = resolve_message(&mut changed, resolver);
        let ghost view = changed.deep_view();
        request.messages.set(i, changed);
        assert(request.deep_view().messages =~= had.messages.update(i as int, view));
        proof {
            if taken is Err && resolver is Some {
                assert(fails_at(resolver, s, i as int, verdict(taken)));
            }
        }
        taken?;
        i = i + 1;
    }
    proof {
        lemma_failures_end(all);
        lemma_failures_end(plain);
    }
    Ok(())
}

/// A message without its images. The placeholder in its content stays.
pub open spec fn stripped(m: ModelMessageView) -> ModelMessageView {
    ModelMessageView { image_attachments: Seq::empty(), ..m }
}

/// Takes the images out of all messages of a request, before the request is compacted. The
/// placeholders in their contents stay.
pub fn strip_request_image_attachments_for_compaction(request: &mut CompletionRequest)
    ensures
        final(request).deep_view() == (CompletionRequestView {
            messages: Seq::new(
                old(request).deep_view().messages.len(),
                |i: int| stripped(old(request).deep_view().messages[i]),
            ),
            ..old(request).deep_view()
        }),
{
    let ghost before = request.deep_view();
    let mut i: usize = 0;
    while i < request.messages.len()
        invariant
            i <= request.messages.len(),
            before == old(request).deep_view(),
            request.deep_view().model_name == before.model_name,
            request.deep_view().messages.len() == before.messages.len(),
            forall|j: int|
                0 <= j < i ==> #[trigger] request.deep_view().messages[j] == stripped(
                    before.messages[j],
                ),
            forall|j: int|
                i <= j < before.messages.len() ==> #[trigger] request.deep_view().messages[j]
                    == before.messages[j],
        decreases request.messages.len() - i,
    {
        let ghost had = request.deep_view().messages;
        assert(had[i as int] == request.messages@[i as int].deep_view());
        let old_message = &request.messages[i];
        let message = ModelMessage {
            id: old_message.id.duplicate(),
            role: old_message.role,
            content: old_message.content.duplicate(),
            image_attachments: Vec::new(),
        };
        assert(message.deep_view().image_attachments =~= Seq::empty());
        let ghost view = message.deep_view();
        request.messages.set(i, message);
        assert(request.deep_view().messages =~= had.update(i as int, view));
        i = i + 1;
    }
    assert(request.deep_view().messages =~= Seq::new(
        before.messages.len(),
        |i: int| stripped(before.messages[i]),
    ));
}

// Placeholders.

/// The first twelve bytes of a digest, where they end with a character; else all of it.
pub open spec fn short_digest_of(digest: Seq<char>) -> Seq<char> {
    let bytes = vstd::utf8::encode_utf8(digest);
    if vstd::utf8::is_char_boundary(bytes, 12) {
        vstd::utf8::decode_utf8(bytes.subrange(0, 12))
    } else {
        digest
    }
}

/// The placeholder of one image.
pub open spec fn placeholder(number: nat, v: ImageAttachmentView) -> Seq<char> {
    "[Image attachment "@ + decimal(number) + ": "@ + mime_text(v.mime_type) + "; "@ + decimal(
        v.width as nat,
    ) + "x"@ + decimal(v.height as nat) + "; "@ + decimal(v.byte_len as nat) + " bytes; sha256="@
        + short_digest_of(v.sha256) + "]"@
}

/// The placeholders of images, one on each line.
pub open spec fn placeholders(s: Seq<ImageAttachmentView>) -> Seq<char>
    decreases s.len(),
{
    if s.len() == 0 {
        Seq::empty()
    } else if s.len() == 1 {
        placeholder(1, s[0])
    } else {
        placeholders(s.drop_last()) + "\n"@ + placeholder(s.len(), s.last())
    }
}

fn shorten(digest: &str) -> (r: String)
    ensures
        r@ == short_digest_of(digest@),
{
    if digest.is_char_boundary(12) {
        let (head, _) = digest.split_at(12);
        proof {
            vstd::utf8::encode_utf8_decode_utf8(head@);
        }
        head.to_owned()
    } else {
        digest.to_owned()
    }
}

fn write_placeholder(number: u64, a: &ImageAttachment) -> (r: String)
    ensures
        r@ == placeholder(number as nat, a.deep_view()),
{
    let mut r = "[Image attachment ".to_owned();
    r.append(decimal_text(number).as_str());
    r.append(": ");
    r.append(a.mime_type.as_str());
    r.append("; ");
    r.append(decimal_text(a.width as u64).as_str());
    r.append("x");
    r.append(decimal_text(a.height as u64).as_str());
    r.append("; ");
    r.append(decimal_text(a.byte_len).as_str());
    r.append(" bytes; sha256=");
    r.append(shorten(a.sha256.as_str()).as_str());
    r.append("]");
    r
}

/// Writes the placeholders of images.
pub fn render_image_attachment_placeholders(attachments: &Vec<ImageAttachment>) -> (r: String)
    ensures
        r@ == placeholders(attachments.deep_view()),
{
    let ghost s = attachments.deep_view();
    let mut r = String::new();
    let mut i: usize = 0;
    assert(s.take(0) =~= Seq::empty());
    while i < attachments.len()
        invariant
            i <= attachments.len(),
            s == attachments.deep_view(),
            r@ == placeholders(s.take(i as int)),
        decreases attachments.len() - i,
    {
        proof {
            assert(s.take(i + 1).drop_last() =~= s.take(i as int));
            assert(s.take(i + 1).last() == attachments@[i as int].deep_view());
        }
        let line = write_placeholder(i as u64 + 1, &attachments[i]);
        if i > 0 {
            r.append("\n");
            r.append(line.as_str());
        } else {
            r = line;
        }
        i = i + 1;
    }
    assert(s.take(i as int) =~= s);
    r
}

// Laws.

/// An attachment that was made of bytes is valid, and so is what is kept of it durably.
pub proof fn law_durable_attachments_stay_valid(v: ImageAttachmentView)
    requires
        attachment_verdict(v) is Ok,
    ensures
        attachment_verdict(with_bytes(v, None)) is Ok,
{
}

/// Bytes are taken only where they have the digest and the length that the description names, and the
/// description is valid without them too.
pub proof fn law_bytes_belong_to_their_description(v: ImageAttachmentView, bytes: Seq<u8>)
    requires
        attachment_verdict(with_bytes(v, Some(bytes))) is Ok,
    ensures
        sha256_hex_of(bytes) == v.sha256,
        bytes.len() == v.byte_len,
        attachment_verdict(with_bytes(v, None)) is Ok,
{
}

} // verus!
