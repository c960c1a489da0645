use gqy::arguments::{Argument, Arguments, Entry, Scalar};
use gqy::meme_collector::{
    delete_message, delete_referenced_meme, delete_tool_allowed, digest_id, image_suffix,
    images_looked_at, meme_id, observe_inbound, put_mapping, save_current_message_meme,
    save_tool_allowed, selected_indices, MemeRef, SaveEvent,
};
use gqy::numbers::{
    decimal_int_text, decimal_text, digits_only, hex_text, parse_i64, parse_u64,
    saturating_difference, saturating_sum,
};
use gqy::order::{sort_indices, trim_vec};
use gqy::platform::{Conversation, ConversationKind, Media, MediaKind};
use gqy::renderer::fonts::{renderer_fonts_dir_from, RenderConfig};
use gqy::renderer::worker::{
    bounded_error, read_frame, read_sized_bytes, read_u32, read_worker_response,
    validate_page_dimensions, write_frame, write_sized_bytes, write_u32,
    write_worker_response, PageLimits, ReadError, RenderedImage, WorkerAnswer,
    MAX_ERROR_FRAME_BYTES, MAX_REQUEST_FRAME_BYTES,
};
use gqy::reply_processor::{
    after_send, before_send, before_turn, choose_shape, context_notice, effective_settings,
    format_status, handle_admin_command, image_alt, prepare_forward_send, prepare_image_send,
    save_overrides, scope, OverridesAction, ReplyMode, ReplyProcessorConfig, SendShape, SendStart,
    SessionOverrides,
};
use gqy::text::{text_lines, text_words, trimmed};

fn text(s: &str) -> Argument {
    Argument::One(Scalar::Text(s.to_string()))
}

fn arguments(list: Vec<(&str, Argument)>) -> Arguments {
    Arguments {
        entries: list
            .into_iter()
            .map(|(key, value)| Entry { key: key.to_string(), value })
            .collect(),
    }
}

fn group() -> Conversation {
    Conversation {
        platform: "onebot".to_string(),
        account_id: "10000".to_string(),
        kind: ConversationKind::Group,
        conversation_id: "90000".to_string(),
    }
}

#[test]
fn save_tool_is_admin_only_by_default() {
    assert!(save_tool_allowed(true, false));
    assert!(!save_tool_allowed(false, false));
}

#[test]
fn setting_can_allow_non_admin_save_tool() {
    assert!(save_tool_allowed(false, true));
}

#[test]
fn pictures_are_collected_from_others() {
    assert!(observe_inbound(true, "42", &group(), true, true));
    assert!(!observe_inbound(true, "10000", &group(), true, true));
    assert!(!observe_inbound(false, "42", &group(), true, true));
    assert!(!observe_inbound(true, "42", &group(), false, true));
    let image = |kind| Media { kind, id: None, name: None, url: None };
    let media = vec![image(MediaKind::Image), image(MediaKind::File), image(MediaKind::Image)];
    assert_eq!(images_looked_at(&media, 1), 1);
    assert_eq!(images_looked_at(&media, 9), 2);
    assert_eq!(selected_indices(&vec![true, false, true]), vec![0, 2]);
    assert_eq!(image_suffix("image/png"), ".png");
    assert_eq!(image_suffix("other"), ".img");
}

#[test]
fn a_meme_is_named_by_its_content() {
    let empty = meme_id(&Vec::new());
    assert_eq!(
        empty,
        "sha256:e3b0c44298fc1c149afbf4c8996fb92427ae41e4649b934ca495991b7852b855"
    );
    assert_ne!(meme_id(&b"a".to_vec()), empty);
    assert_eq!(digest_id(&vec![0xab; 32]).len(), empty.len());
}

#[test]
fn memes_are_saved_and_deleted_by_reference() {
    let event = SaveEvent {
        is_message: true,
        conversation: group(),
        message_id: "7".to_string(),
        sender_id: "42".to_string(),
        sender_name: "名".to_string(),
        timestamp: 100,
        media: vec![Media { kind: MediaKind::Image, id: None, name: None, url: None }],
        reply_to_message_id: None,
        replied: None,
    };
    let event = Some(event);
    let plan = save_current_message_meme(true, &event, &arguments(vec![])).unwrap();
    assert_eq!(plan.message_id, "7");
    assert!(save_current_message_meme(false, &event, &arguments(vec![])).is_err());
    assert!(save_current_message_meme(true, &None, &arguments(vec![])).is_err());

    assert!(delete_tool_allowed(true, ConversationKind::Group));
    assert!(delete_message(true, ConversationKind::Group, &Some("5".to_string())).is_ok());
    assert!(delete_message(true, ConversationKind::Group, &None).is_err());
    let one = MemeRef { library: "l".to_string(), id: "i".to_string() };
    let two = MemeRef { library: "l".to_string(), id: "j".to_string() };
    let mapping = put_mapping(&group(), "7", &one, "inbound", "now");
    assert_eq!(mapping.meme_id, "i");
    assert_eq!(mapping.conversation_kind, "group");
    assert!(delete_referenced_meme(&Vec::new()).is_err());
    assert_eq!(delete_referenced_meme(&vec![one.copy()]).unwrap().id, "i");
    assert!(delete_referenced_meme(&vec![one, two]).is_err());
}

#[test]
fn font_override_missing_file_falls_back_and_absence_is_an_error() {
    let dirs = vec!["override".to_string(), "installed".to_string()];
    assert!(renderer_fonts_dir_from(&dirs, &vec![false, false]).is_err());
    assert_eq!(renderer_fonts_dir_from(&dirs, &vec![false, true]).unwrap(), "installed");
    assert_eq!(renderer_fonts_dir_from(&dirs, &vec![true, true]).unwrap(), "override");
}

#[test]
fn extreme_settings_are_bounded() {
    let config = RenderConfig {
        theme: "unknown".to_string(),
        max_height: 1,
        font_size: 0,
        code_font_size: u32::MAX,
        padding: u32::MAX,
        font: "/definitely/missing/body.ttf".to_string(),
        title_font: "/definitely/missing/title.ttf".to_string(),
        code_font: "/definitely/missing/code.ttf".to_string(),
        emoji_font: "/definitely/missing/emoji.ttf".to_string(),
    };
    let n = config.normalized(600, 20000);
    assert_eq!(n.max_height, 600);
    assert!(n.font_size > 0);
    assert!(n.code_font_size < u32::MAX);
    assert!(n.padding < u32::MAX);
}

fn page_limits() -> PageLimits {
    PageLimits::new(2000, 20000, 20_000_000, 10_000_000, 10_000_000).unwrap()
}

#[test]
fn worker_binary_response_round_trips_without_base64() {
    let expected_png = b"\x89PNG\r\n\x1a\nworker".to_vec();
    let bytes = write_worker_response(
        &page_limits(),
        &Ok(vec![RenderedImage {
            mime: "image/png".to_string(),
            png: expected_png.clone(),
            width: 960,
            height: 120,
        }]),
    )
    .unwrap();
    match read_worker_response(&bytes, &page_limits()) {
        WorkerAnswer::Images(images) => {
            assert_eq!(images.len(), 1);
            assert_eq!(images[0].mime, "image/png");
            assert_eq!(images[0].png, expected_png);
            assert_eq!(images[0].width, 960);
            assert_eq!(images[0].height, 120);
        }
        _ => panic!("images"),
    }
    let cut = bytes[..bytes.len() - 1].to_vec();
    assert!(matches!(read_worker_response(&cut, &page_limits()), WorkerAnswer::Incomplete));
}

#[test]
fn request_frames_enforce_the_input_budget() {
    let payload = b"request".to_vec();
    let frame = write_frame(&payload).unwrap();
    assert_eq!(read_frame(&frame, MAX_REQUEST_FRAME_BYTES).ok().unwrap(), payload);
    assert!(write_frame(&vec![0; MAX_REQUEST_FRAME_BYTES + 1]).is_err());
    assert!(matches!(read_frame(&frame, 3), Err(ReadError::Invalid(_))));
    assert!(matches!(read_frame(&vec![0, 0], 30), Err(ReadError::Incomplete)));
}

#[test]
fn errors_reach_the_other_side() {
    let bytes = write_worker_response(&page_limits(), &Err("没有字体".to_string())).unwrap();
    match read_worker_response(&bytes, &page_limits()) {
        WorkerAnswer::Render(message) => assert_eq!(message, "没有字体"),
        _ => panic!("an error"),
    }
    let long = "字".repeat(MAX_ERROR_FRAME_BYTES);
    let cut = bounded_error(&long);
    assert_eq!(cut.len(), MAX_ERROR_FRAME_BYTES - MAX_ERROR_FRAME_BYTES % "字".len());
    let bytes = write_worker_response(&page_limits(), &Err(long)).unwrap();
    match read_worker_response(&bytes, &page_limits()) {
        WorkerAnswer::Render(message) => assert_eq!(message, cut),
        _ => panic!("an error"),
    }
    let rendered = |png: Vec<u8>| {
        Ok(vec![RenderedImage { mime: "image/png".to_string(), png, width: 10, height: 10 }])
    };
    let tight = PageLimits::new(100, 100, 10_000, 3, 3).unwrap();
    let bytes = write_worker_response(&tight, &rendered(vec![1, 2, 3])).unwrap();
    assert!(matches!(
        read_worker_response(&bytes, &tight),
        WorkerAnswer::Images(images) if images[0].png == vec![1, 2, 3]
    ));
    assert!(write_worker_response(&tight, &rendered(vec![1, 2, 3, 4])).is_err());
    assert!(PageLimits::new(100, 100, 10_000, 4, 3).is_none());
    assert!(matches!(
        read_worker_response(&vec![9], &page_limits()),
        WorkerAnswer::Transport(_)
    ));
}

#[test]
fn numbers_and_bytes_have_sizes() {
    let mut out: Vec<u8> = Vec::new();
    write_u32(&mut out, 258, "n").unwrap();
    assert_eq!(out, vec![0, 0, 1, 2]);
    assert_eq!(read_u32(&out, 0), Some(258));
    assert_eq!(read_u32(&out, 1), None);
    assert!(write_u32(&mut out, 1usize << 32, "n").is_err());
    let mut sized: Vec<u8> = Vec::new();
    write_sized_bytes(&mut sized, b"ab", 2, "b").unwrap();
    assert_eq!(read_sized_bytes(&sized, 0, 2).ok().unwrap(), (b"ab".to_vec(), 6));
    assert!(write_sized_bytes(&mut sized, b"abc", 2, "b").is_err());
    assert!(validate_page_dimensions(&page_limits(), 10, 10).is_ok());
    assert!(validate_page_dimensions(&page_limits(), 0, 10).is_err());
    assert!(validate_page_dimensions(&page_limits(), 2001, 10).is_err());
}

fn config() -> ReplyProcessorConfig {
    ReplyProcessorConfig {
        default_enabled: true,
        threshold: 200,
        mode: ReplyMode::Image,
        strip_period: true,
        context_notice: true,
        send_tool_intercept: true,
        followup_mention: true,
    }
}

#[test]
fn only_administrators_change_settings() {
    let o = SessionOverrides::none();
    let refused = handle_admin_command(false, "关闭", config(), o, "scope");
    assert_eq!(refused.action, OverridesAction::Keep);
    assert!(refused.reply.contains("admin_users"));
    let status = handle_admin_command(true, "", config(), o, "scope");
    assert_eq!(status.action, OverridesAction::Keep);
    assert!(format_status("scope", &effective_settings(config(), o)).contains("200 字"));
    assert_eq!(save_overrides(o), OverridesAction::Delete);
    assert_eq!(ReplyMode::parse(" Forward "), Some(ReplyMode::Forward));
    assert_eq!(ReplyMode::parse("bogus"), None);
    assert_eq!(scope(&group()).plugin_id, "reply_processor");
}

#[test]
fn long_answers_take_another_shape() {
    let s = effective_settings(config(), SessionOverrides::none());
    assert!(matches!(before_send(&s, true), SendStart::Unchanged));
    assert!(matches!(before_send(&s, false), SendStart::LookAt { strip: true }));
    assert!(matches!(choose_shape(&s, false, false, 10, false), SendShape::Unchanged));
    assert!(matches!(choose_shape(&s, false, false, 1000, false), SendShape::Image));
    let image = prepare_image_send(&s, 2, 1000).unwrap();
    assert_eq!(image.alts, vec!["长回复图片 1/2", "长回复图片 2/2"]);
    assert!(image.suppress_final_reply);
    assert!(prepare_image_send(&s, 0, 1000).is_none());
    let forward = prepare_forward_send(
        &s,
        true,
        false,
        false,
        ConversationKind::Group,
        "10000",
        None,
        "42",
    )
    .unwrap();
    assert_eq!(forward.display_name, "顾清影");
    assert_eq!(forward.followup_mention.as_deref(), Some("42"));
    assert!(prepare_forward_send(
        &s,
        true,
        true,
        false,
        ConversationKind::Group,
        "10000",
        None,
        "42"
    )
    .is_none());
    assert_eq!(image_alt(0, 3), "长回复图片 1/3");
    let notice = after_send(5, Some(1000), None, &vec!["7".to_string()]);
    assert_eq!(notice.image_count, 1);
    assert!(context_notice(&vec![notice]).contains("LongReplyImageConversion"));
    assert!(before_turn(&s, 1));
    assert!(!before_turn(&s, 0));
}

#[test]
fn numbers_read_back() {
    assert_eq!(decimal_text(u64::MAX), "18446744073709551615");
    assert_eq!(decimal_int_text(i64::MIN), "-9223372036854775808");
    assert_eq!(parse_i64("-9223372036854775808"), Some(i64::MIN));
    assert_eq!(parse_i64("9223372036854775808"), None);
    assert_eq!(parse_u64("18446744073709551615"), Some(u64::MAX));
    assert_eq!(parse_u64("18446744073709551616"), None);
    assert_eq!(parse_u64(""), None);
    assert_eq!(hex_text(0xabc, 6), "000abc");
    assert!(digits_only("0123"));
    assert!(!digits_only("12a"));
    assert_eq!(saturating_sum(i64::MAX, 1), i64::MAX);
    assert_eq!(saturating_difference(i64::MIN, 1), i64::MIN);
}

#[test]
fn orders_are_stable_and_lists_keep_the_newest() {
    assert_eq!(sort_indices(&vec![3, 1, 3, 2]), vec![1, 3, 0, 2]);
    let mut v = vec![1, 2, 3, 4];
    trim_vec(&mut v, 2);
    assert_eq!(v, vec![3, 4]);
}

#[test]
fn texts_are_cut_at_white_space() {
    assert_eq!(text_words(" a \u{3000}b\nc "), vec!["a", "b", "c"]);
    assert_eq!(text_lines("a\r\nb\n\nc"), vec!["a", "b", "", "c"]);
    assert_eq!(trimmed("\u{a0} x \u{2003}"), "x");
    let args = arguments(vec![("k", text("v"))]);
    assert_eq!(args.text("k").as_deref(), Some("v"));
    assert_eq!(args.integer("k"), None);
    assert!(args.is_absent("other"));
}
