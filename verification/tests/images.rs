//! Image attachments.

use sigil_kernel::image_attachment::{
    estimate_visual_tokens, render_image_attachment_placeholders,
    resolve_request_image_attachments, strip_request_image_attachments_for_compaction,
    validate_image_input_capability, validate_message_image_attachments,
    validate_request_image_attachments, CompletionRequest, ImageAttachment,
    ImageAttachmentResolver, ImageInputCapability, ImageMimeType, MessageRole, ModelMessage,
};
use sigil_kernel::value::KernelError;

const DIGEST: &str = "039058c6f2c0cb492c533b0a4d14ef77cc0f78abccced5287d84a1a2011cfb81";

struct Cache {
    bytes: Option<Vec<u8>>,
}

impl ImageAttachmentResolver for Cache {
    fn resolve(&self, attachment: &ImageAttachment) -> Result<Vec<u8>, KernelError> {
        match &self.bytes {
            Some(bytes) => Ok(bytes.clone()),
            None => Err(KernelError { message: format!("{} is gone", attachment.attachment_id) }),
        }
    }
}

fn text(value: &str) -> String {
    value.to_owned()
}

fn image(id: &str) -> ImageAttachment {
    ImageAttachment::from_bytes(id, ImageMimeType::Jpeg, 57, 28, vec![1, 2, 3]).unwrap()
}

fn stored(id: &str) -> ImageAttachment {
    image(id).without_resolved_bytes()
}

fn message(role: MessageRole, image_attachments: Vec<ImageAttachment>) -> ModelMessage {
    ModelMessage { id: text("message-1"), role, content: Some(text("look")), image_attachments }
}

fn request(image_attachments: Vec<ImageAttachment>) -> CompletionRequest {
    CompletionRequest {
        model_name: text("model-a"),
        messages: vec![message(MessageRole::User, image_attachments)],
    }
}

fn failure(attachment: &ImageAttachment) -> String {
    attachment.validate().unwrap_err().message
}

#[test]
fn formats_have_stable_names() {
    assert_eq!(ImageMimeType::Png.as_str(), "image/png");
    assert_eq!(ImageMimeType::Jpeg.as_str(), "image/jpeg");
    assert_eq!(ImageMimeType::Webp.as_str(), "image/webp");
    assert_eq!(ImageMimeType::Png.extension(), "png");
    assert_eq!(ImageMimeType::Jpeg.extension(), "jpg");
    assert_eq!(ImageMimeType::Webp.extension(), "webp");
    assert_eq!(ImageInputCapability::default(), ImageInputCapability::Unsupported);
    assert!(ImageInputCapability::Supported.is_supported());
}

#[test]
fn descriptions_are_derived_from_the_bytes() {
    let made = image("image-1");
    assert_eq!(made.sha256, DIGEST);
    assert_eq!(made.artifact_ref, format!("{DIGEST}.jpg"));
    assert_eq!(made.byte_len, 3);
    assert_eq!(made.estimated_visual_tokens, 3);
    assert_eq!(made.resolved_bytes(), Ok(&[1u8, 2, 3][..]));
    assert_eq!(made.validate(), Ok(()));
    assert_eq!(estimate_visual_tokens(28, 28), 1);
    assert_eq!(estimate_visual_tokens(29, 56), 4);
    assert_eq!(estimate_visual_tokens(0, 56), 0);
}

#[test]
fn stored_descriptions_have_no_bytes() {
    let made = ImageAttachment::unresolved(
        text("image-1"),
        text(DIGEST),
        ImageMimeType::Jpeg,
        57,
        28,
        3,
        3,
        format!("{DIGEST}.jpg"),
    );
    assert!(made == stored("image-1"));
    assert!(!made.has_resolved_bytes());
    assert_eq!(made.validate(), Ok(()));
}

#[test]
fn unsound_descriptions_are_refused() {
    let refused = |id: &str, width: u32, height: u32, bytes: Vec<u8>| {
        ImageAttachment::from_bytes(id, ImageMimeType::Png, width, height, bytes)
            .err()
            .unwrap()
            .message
    };
    assert_eq!(refused("image 1", 1, 1, vec![1]), "image attachment id is invalid");
    assert_eq!(refused("", 1, 1, vec![1]), "image attachment id is invalid");
    assert_eq!(refused("i", 0, 1, vec![1]), "image attachment dimensions must be non-zero");
    assert_eq!(refused("i", 8193, 1, vec![1]), "image attachment exceeds the maximum dimension");
    assert_eq!(
        refused("i", 8192, 8192, vec![1]),
        "image attachment exceeds the maximum pixel count",
    );
    assert_eq!(
        refused("i", 1, 1, vec![]),
        "image attachment byte length is outside the V1 limit",
    );
    let mut digest = stored("i");
    digest.sha256 = text("ABC");
    assert_eq!(
        failure(&digest),
        "image attachment SHA-256 must be 64 lowercase hexadecimal characters",
    );
    let mut tokens = stored("i");
    tokens.estimated_visual_tokens = 4;
    assert_eq!(
        failure(&tokens),
        "image attachment visual-token estimate does not match its dimensions",
    );
    let mut reference = stored("i");
    reference.artifact_ref = text("elsewhere.jpg");
    assert_eq!(failure(&reference), "image attachment artifact reference is not canonical");
    let mut longer = image("i");
    longer.byte_len = 4;
    assert_eq!(
        failure(&longer),
        "resolved image attachment byte length does not match metadata",
    );
}

#[test]
fn bytes_are_taken_only_when_they_match() {
    let mut attachment = stored("image-1");
    assert!(!attachment.has_resolved_bytes());
    assert_eq!(
        attachment.resolved_bytes().unwrap_err().message,
        "image attachment bytes are not resolved",
    );
    assert_eq!(
        attachment.set_resolved_bytes(vec![1, 2, 4]).unwrap_err().message,
        "resolved image attachment hash does not match metadata",
    );
    assert!(!attachment.has_resolved_bytes());
    assert_eq!(attachment.set_resolved_bytes(vec![1, 2, 3]), Ok(()));
    assert!(attachment == image("image-1"));
    assert!(attachment.set_resolved_bytes(vec![]).is_err());
    assert_eq!(attachment.resolved_bytes(), Ok(&[1u8, 2, 3][..]));
    assert_eq!(stored("image-1").accept_resolved(Ok(vec![1, 2, 3])), Ok(()));
    let lost = KernelError { message: text("lost") };
    assert_eq!(stored("image-1").accept_resolved(Err(lost.clone())), Err(lost));
}

#[test]
fn messages_are_bounded() {
    let sound = message(MessageRole::User, vec![image("a"), image("b")]);
    assert_eq!(validate_message_image_attachments(&sound), Ok(()));
    let refused = |role: MessageRole, attachments: Vec<ImageAttachment>| {
        validate_message_image_attachments(&message(role, attachments)).unwrap_err().message
    };
    assert_eq!(
        refused(MessageRole::Assistant, vec![image("a")]),
        "only user messages may carry image attachments",
    );
    let five = ["a", "b", "c", "d", "e"].iter().map(|id| image(id)).collect();
    assert_eq!(
        refused(MessageRole::User, five),
        "user message exceeds the image attachment count limit",
    );
    assert_eq!(
        refused(MessageRole::User, vec![image("a"), image("a")]),
        "user message contains a duplicate image attachment id",
    );
    let heavy = |id: &str| {
        let mut attachment = stored(id);
        attachment.byte_len = 8 * 1024 * 1024;
        attachment
    };
    assert_eq!(
        refused(MessageRole::User, vec![heavy("a"), heavy("b"), heavy("c"), heavy("d")]),
        "user message exceeds the image attachment byte limit",
    );
    let wide = ImageAttachment::from_bytes("w", ImageMimeType::Jpeg, 4000, 4000, vec![1]).unwrap();
    assert_eq!(
        refused(MessageRole::User, vec![wide]),
        "user message exceeds the image attachment visual-token limit",
    );
    assert_eq!(validate_request_image_attachments(&request(vec![image("a")])), Ok(()));
    assert!(validate_request_image_attachments(&request(vec![image("a"), image("a")])).is_err());
}

#[test]
fn images_need_a_model_that_takes_them() {
    let with_image = request(vec![image("a")]);
    assert_eq!(
        validate_image_input_capability(ImageInputCapability::Unsupported, &with_image)
            .unwrap_err()
            .message,
        "provider model model-a does not support image input",
    );
    assert_eq!(
        validate_image_input_capability(ImageInputCapability::Supported, &with_image),
        Ok(()),
    );
    assert_eq!(
        validate_image_input_capability(ImageInputCapability::Unsupported, &request(vec![])),
        Ok(()),
    );
}

#[test]
fn missing_bytes_are_resolved() {
    let cache = Cache { bytes: Some(vec![1, 2, 3]) };
    let mut resolved = request(vec![stored("a"), image("b")]);
    assert_eq!(resolve_request_image_attachments(&mut resolved, Some(&cache)), Ok(()));
    assert!(resolved.messages[0].image_attachments.iter().all(|a| a.has_resolved_bytes()));
    let mut unavailable = request(vec![stored("a")]);
    assert_eq!(
        resolve_request_image_attachments::<Cache>(&mut unavailable, None).unwrap_err().message,
        "image attachment a is unavailable; reattach the image or restore the controlled cache",
    );
    let mut lost = request(vec![stored("a")]);
    assert_eq!(
        resolve_request_image_attachments(&mut lost, Some(&Cache { bytes: None }))
            .unwrap_err()
            .message,
        "a is gone",
    );
    let mut other = request(vec![stored("a")]);
    assert!(resolve_request_image_attachments(&mut other, Some(&Cache { bytes: Some(vec![9]) }))
        .is_err());
    assert!(!other.messages[0].image_attachments[0].has_resolved_bytes());
    let mut invalid = request(vec![stored("a"), stored("a")]);
    assert_eq!(
        resolve_request_image_attachments(&mut invalid, Some(&Cache { bytes: None }))
            .unwrap_err()
            .message,
        "user message contains a duplicate image attachment id",
    );
    let mut present = request(vec![image("a")]);
    assert_eq!(resolve_request_image_attachments::<Cache>(&mut present, None), Ok(()));
}

#[test]
fn compaction_keeps_placeholders_only() {
    let mut compacted = request(vec![image("a")]);
    strip_request_image_attachments_for_compaction(&mut compacted);
    assert_eq!(compacted.messages[0].image_attachments.len(), 0);
    assert_eq!(compacted.messages[0].content, Some(text("look")));
    assert_eq!(
        render_image_attachment_placeholders(&vec![image("a"), image("b")]),
        "[Image attachment 1: image/jpeg; 57x28; 3 bytes; sha256=039058c6f2c0]\n\
         [Image attachment 2: image/jpeg; 57x28; 3 bytes; sha256=039058c6f2c0]",
    );
    assert_eq!(render_image_attachment_placeholders(&vec![]), "");
}
