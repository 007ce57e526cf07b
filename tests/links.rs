use arg_proxy::discord::{DiscordUrl, ExpiryParameters, ParseError};

fn window(expiry: i64, is: i64, hm: Vec<u8>) -> Option<ExpiryParameters> {
    Some(ExpiryParameters { expiry, is, hm })
}

fn link(channel_id: u64, attachment_id: u64, filename: &str, w: Option<ExpiryParameters>) -> DiscordUrl {
    DiscordUrl { channel_id, attachment_id, filename: filename.to_string(), expiry_params: w }
}

#[test]
fn renders_with_window() {
    let u = link(10, 20, "file.png", window(0x65a0, 0x6599, vec![0xaa, 0xbb, 0xcc]));
    assert_eq!(
        u.to_string(),
        "https://cdn.discordapp.com/attachments/10/20/file.png?ex=65a0&is=6599&hm=aabbcc"
    );
}

#[test]
fn renders_without_window() {
    let u = link(10, 20, "file.png", None);
    assert_eq!(u.to_string(), "https://cdn.discordapp.com/attachments/10/20/file.png");
}

#[test]
fn renders_negative_instants_with_sign() {
    let u = link(1, 2, "a", window(-1, -0x10, vec![0x00, 0x0f]));
    assert_eq!(u.to_string(), "https://cdn.discordapp.com/attachments/1/2/a?ex=-1&is=-10&hm=000f");
}

#[test]
fn round_trip_with_window() {
    let u = link(1130000000000000000, 42, "image.png", window(0x65a0b1c2, 0x65990000, vec![1, 2, 254, 255]));
    assert_eq!(DiscordUrl::try_from_url(&u.to_string()), Ok(u));
}

#[test]
fn round_trip_without_window() {
    let u = link(u64::MAX, 0, "notes.txt", None);
    assert_eq!(DiscordUrl::try_from_url(&u.to_string()), Ok(u));
}

#[test]
fn round_trip_negative_and_empty_signature() {
    let u = link(7, 8, "x.bin", window(-377_705_116_800, 253_402_300_799, vec![]));
    assert_eq!(DiscordUrl::try_from_url(&u.to_string()), Ok(u));
}

#[test]
fn parses_bare_link() {
    let r = DiscordUrl::try_from_url(
        "https://cdn.discordapp.com/attachments/10/20/file.png?ex=65a0&is=6599&hm=aabbcc",
    );
    assert_eq!(r, Ok(link(10, 20, "file.png", window(0x65a0, 0x6599, vec![0xaa, 0xbb, 0xcc]))));
}

#[test]
fn parses_link_without_window() {
    let r = DiscordUrl::try_from_url("https://cdn.discordapp.com/attachments/10/20/file.png");
    assert_eq!(r, Ok(link(10, 20, "file.png", None)));
}

#[test]
fn parses_upper_case_hex_and_plus_sign() {
    let r = DiscordUrl::try_from_url(
        "https://cdn.discordapp.com/attachments/+10/20/f?ex=%2B65A0&is=6599&hm=AaBb",
    );
    assert_eq!(r, Ok(link(10, 20, "f", window(0x65a0, 0x6599, vec![0xaa, 0xbb]))));
}

#[test]
fn last_duplicate_parameter_wins() {
    let r = DiscordUrl::try_from_url(
        "https://cdn.discordapp.com/attachments/1/2/f?ex=1&is=2&hm=aa&ex=3",
    );
    assert_eq!(r, Ok(link(1, 2, "f", window(3, 2, vec![0xaa]))));
}

#[test]
fn partial_window_only_ex() {
    let r = DiscordUrl::try_from_url("https://cdn.discordapp.com/attachments/1/2/f?ex=65a0");
    assert_eq!(r, Err(ParseError::PartialWindow));
}

#[test]
fn partial_window_ex_and_is() {
    let r = DiscordUrl::try_from_url("https://cdn.discordapp.com/attachments/1/2/f?ex=65a0&is=6599");
    assert_eq!(r, Err(ParseError::PartialWindow));
}

#[test]
fn partial_window_only_hm() {
    let r = DiscordUrl::try_from_url("https://cdn.discordapp.com/attachments/1/2/f?hm=aa");
    assert_eq!(r, Err(ParseError::PartialWindow));
}

#[test]
fn unrelated_query_is_no_window() {
    let r = DiscordUrl::try_from_url("https://cdn.discordapp.com/attachments/1/2/f?size=64");
    assert_eq!(r, Ok(link(1, 2, "f", None)));
}

#[test]
fn error_invalid_url() {
    assert_eq!(DiscordUrl::try_from_url("not a url"), Err(ParseError::InvalidUrl));
}

#[test]
fn error_missing_attachment_section() {
    assert_eq!(DiscordUrl::try_from_url("mailto:someone@example.com"), Err(ParseError::MissingAttachmentSection));
}

#[test]
fn error_missing_channel_id() {
    assert_eq!(DiscordUrl::try_from_url("https://cdn.discordapp.com/attachments"), Err(ParseError::MissingChannelId));
}

#[test]
fn error_invalid_channel_id() {
    assert_eq!(DiscordUrl::try_from_url("https://cdn.discordapp.com/attachments/x1/2/f"), Err(ParseError::InvalidChannelId));
}

#[test]
fn error_channel_id_overflow() {
    assert_eq!(
        DiscordUrl::try_from_url("https://cdn.discordapp.com/attachments/18446744073709551616/2/f"),
        Err(ParseError::InvalidChannelId)
    );
}

#[test]
fn error_missing_attachment_id() {
    assert_eq!(DiscordUrl::try_from_url("https://cdn.discordapp.com/attachments/1"), Err(ParseError::MissingAttachmentId));
}

#[test]
fn error_invalid_attachment_id() {
    assert_eq!(DiscordUrl::try_from_url("https://cdn.discordapp.com/attachments/1/-2/f"), Err(ParseError::InvalidAttachmentId));
}

#[test]
fn error_missing_filename() {
    assert_eq!(DiscordUrl::try_from_url("https://cdn.discordapp.com/attachments/1/2"), Err(ParseError::MissingFilename));
}

#[test]
fn error_invalid_ex() {
    assert_eq!(
        DiscordUrl::try_from_url("https://cdn.discordapp.com/attachments/1/2/f?ex=zz&is=1&hm=aa"),
        Err(ParseError::InvalidEx)
    );
}

#[test]
fn error_ex_out_of_range() {
    assert_eq!(
        DiscordUrl::try_from_url("https://cdn.discordapp.com/attachments/1/2/f?ex=7fffffffffffffff&is=1&hm=aa"),
        Err(ParseError::ExOutOfRange)
    );
}

#[test]
fn error_invalid_is() {
    assert_eq!(
        DiscordUrl::try_from_url("https://cdn.discordapp.com/attachments/1/2/f?ex=1&is=&hm=aa"),
        Err(ParseError::InvalidIs)
    );
}

#[test]
fn error_is_out_of_range() {
    assert_eq!(
        DiscordUrl::try_from_url("https://cdn.discordapp.com/attachments/1/2/f?ex=1&is=-8000000000000000&hm=aa"),
        Err(ParseError::IsOutOfRange)
    );
}

#[test]
fn error_hm_odd_length() {
    assert_eq!(
        DiscordUrl::try_from_url("https://cdn.discordapp.com/attachments/1/2/f?ex=1&is=1&hm=abc"),
        Err(ParseError::InvalidHm)
    );
}

#[test]
fn error_hm_not_hex() {
    assert_eq!(
        DiscordUrl::try_from_url("https://cdn.discordapp.com/attachments/1/2/f?ex=1&is=1&hm=zz"),
        Err(ParseError::InvalidHm)
    );
}

#[test]
fn wrapped_absolute_inner_link() {
    let r = DiscordUrl::try_from_full_url(
        "https://proxy.example/https://cdn.discordapp.com/attachments/3/4/clip.mp4?ex=10&is=f&hm=0102",
    );
    assert_eq!(r, Ok(link(3, 4, "clip.mp4", window(0x10, 0xf, vec![1, 2]))));
}

#[test]
fn wrapped_percent_encoded_path() {
    let r = DiscordUrl::try_from_full_url(
        "https://host/%2Fattachments%2F10%2F20%2Ffile.png?ex=65a0&is=6599&hm=aabbcc",
    );
    assert_eq!(r, Ok(link(10, 20, "file.png", window(0x65a0, 0x6599, vec![0xaa, 0xbb, 0xcc]))));
}

#[test]
fn wrapped_outer_query_replaces_inner() {
    let r = DiscordUrl::try_from_full_url(
        "https://proxy.example/https://cdn.discordapp.com/attachments/3/4/c?ex=1",
    );
    assert_eq!(r, Err(ParseError::PartialWindow));
}

#[test]
fn wrapped_without_query_has_no_window() {
    let r = DiscordUrl::try_from_full_url("https://proxy.example/https://cdn.discordapp.com/attachments/3/4/c");
    assert_eq!(r, Ok(link(3, 4, "c", None)));
}

#[test]
fn wrapped_error_invalid_outer() {
    assert_eq!(DiscordUrl::try_from_full_url("::"), Err(ParseError::InvalidUrl));
}

#[test]
fn wrapped_error_invalid_inner() {
    assert_eq!(
        DiscordUrl::try_from_full_url("https://proxy.example/http:%2F%2F%5B%3A%3A"),
        Err(ParseError::InvalidInnerUrl)
    );
}

#[test]
fn kv_key_is_hex_ids() {
    assert_eq!(link(10, 20, "file.png", None).to_kv_key(), "a/14");
    assert_eq!(link(u64::MAX, 0, "f", None).to_kv_key(), "ffffffffffffffff/0");
}

#[test]
fn kv_key_ignores_filename_and_window() {
    let a = link(10, 20, "file.png", None);
    let b = link(10, 20, "other.gif", window(1, 2, vec![3]));
    assert_eq!(a.to_kv_key(), b.to_kv_key());
    assert_ne!(a.to_kv_key(), link(20, 10, "file.png", None).to_kv_key());
}

#[test]
fn params_map_none_without_parameters() {
    let pairs = vec![("a".to_string(), "b".to_string())];
    assert!(ExpiryParameters::try_from_params_map(&pairs).is_none());
}

#[test]
fn params_map_reads_window() {
    let pairs = vec![
        ("hm".to_string(), "0aff".to_string()),
        ("is".to_string(), "-a".to_string()),
        ("ex".to_string(), "b".to_string()),
    ];
    let w = ExpiryParameters::try_from_params_map(&pairs).unwrap().unwrap();
    assert_eq!((w.expiry, w.is, w.hm), (11, -10, vec![0x0a, 0xff]));
}

#[test]
fn from_parts_skips_first_segment() {
    let segs = Some(vec!["anything".to_string(), "5".to_string(), "6".to_string(), "n".to_string(), "extra".to_string()]);
    assert_eq!(DiscordUrl::from_parts(&segs, &vec![]), Ok(link(5, 6, "n", None)));
    assert_eq!(DiscordUrl::from_parts(&None, &vec![]), Err(ParseError::MissingAttachmentSection));
}

#[test]
fn equality_compares_signature_bytes() {
    let a = link(1, 2, "f", window(1, 2, vec![1]));
    let b = link(1, 2, "f", window(1, 2, vec![2]));
    assert!(a != b);
    assert!(a.same_as(&a.duplicate()));
    assert!(!a.same_as(&b));
}

#[test]
fn plus_in_query_is_a_space() {
    assert_eq!(
        DiscordUrl::try_from_url("https://cdn.discordapp.com/attachments/1/2/f?ex=+1&is=1&hm=aa"),
        Err(ParseError::InvalidEx)
    );
}
