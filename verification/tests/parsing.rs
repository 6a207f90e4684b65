use zhaba::admin::{check_login, parse_html_color, Admin, LoginForm, LoginOutcome};
use zhaba::content::{formatter, prepare_submission, submit_error_flash, usize_to_string,
    Submission, SubmitError};
use zhaba::decode::{decode_post_row, DecodeError};
use zhaba::images::imghdr;
use zhaba::models::Flash;
use zhaba::timestamps::{TS_MAX, TS_MIN};
use zhaba::whois::{whois_from_lines, WhoisError};

fn lines(ls: &[&str]) -> Vec<String> {
    ls.iter().map(|l| l.to_string()).collect()
}

#[test]
fn imghdr_recognizes_magic_bytes() {
    assert_eq!(imghdr(b"\x89PNG\r\n\x1a\n....."), Some(".png"));
    assert_eq!(imghdr(b"\xff\xd8\xff\xe0\x00\x10JFIF\x00"), Some(".jpg"));
    assert_eq!(imghdr(b"\xff\xd8\xff\xe1\x00\x10Exif\x00"), Some(".jpg"));
    assert_eq!(imghdr(b"GIF87a."), Some(".gif"));
    assert_eq!(imghdr(b"GIF89a."), Some(".gif"));
    assert_eq!(imghdr(b"RIFF\x00\x00\x00\x00WEBPVP8 "), Some(".webp"));
    assert_eq!(imghdr(b"plain text here"), None);
    assert_eq!(imghdr(b""), None);
    assert_eq!(imghdr(b"\x89PNG"), None);
}

#[test]
fn html_color_parsing() {
    assert_eq!(parse_html_color("#ff0000"), Some(0xff0000));
    assert_eq!(parse_html_color("#123abc"), Some(0x123abc));
    assert_eq!(parse_html_color("#ABCDEF"), Some(0xabcdef));
    assert_eq!(parse_html_color("#+ff"), Some(0xff));
    assert_eq!(parse_html_color("#ffffffff"), Some(0xffffffff));
    assert_eq!(parse_html_color("#fffffffff"), None);
    assert_eq!(parse_html_color("#"), None);
    assert_eq!(parse_html_color(""), None);
    assert_eq!(parse_html_color("#12x4"), None);
    assert_eq!(parse_html_color("ff"), Some(0xf));
}

#[test]
fn whois_parses_a_route_object() {
    let answer = lines(&[
        "% This is a comment",
        "% Information related to 'route/192.0.2.0/24AS64496'",
        "route:          192.0.2.0/24",
        "origin:         AS64496",
        "mnt-by:         EXAMPLE-MNT",
        "source:         RIPE",
    ]);
    let r = whois_from_lines(&answer).expect("parses");
    let w = r.expect("route object present");
    assert_eq!(w.asn, 64496);
    assert_eq!(w.mnt, "EXAMPLE-MNT".to_string());
}

#[test]
fn whois_without_header_is_no_result() {
    let answer = lines(&["% nothing here", "origin: AS1", "mnt-by: X"]);
    assert_eq!(whois_from_lines(&answer), Ok(None));
    assert_eq!(whois_from_lines(&lines(&[])), Ok(None));
}

#[test]
fn whois_last_occurrence_wins() {
    let answer = lines(&[
        "% Information related to 'route/192.0.2.0/24AS64496'",
        "origin: AS1",
        "mnt-by: FIRST-MNT",
        "origin: AS2",
        "mnt-by: SECOND-MNT",
    ]);
    let w = whois_from_lines(&answer).expect("parses").expect("present");
    assert_eq!(w.asn, 2);
    assert_eq!(w.mnt, "SECOND-MNT".to_string());
}

#[test]
fn whois_incomplete_object_is_no_result() {
    let only_origin = lines(&[
        "% Information related to 'route/192.0.2.0/24AS64496'",
        "origin: AS64496",
    ]);
    assert_eq!(whois_from_lines(&only_origin), Ok(None));
    let only_mnt = lines(&[
        "% Information related to 'route/192.0.2.0/24AS64496'",
        "mnt-by: EXAMPLE-MNT",
    ]);
    let r = whois_from_lines(&only_mnt).expect("parses");
    assert!(r.is_none());
}

#[test]
fn whois_malformed_origin_is_an_error() {
    let short = lines(&[
        "% Information related to 'route/192.0.2.0/24AS64496'",
        "origin: A",
    ]);
    assert_eq!(whois_from_lines(&short), Err(WhoisError::BadAsn));
    let not_a_number = lines(&[
        "% Information related to 'route/192.0.2.0/24AS64496'",
        "origin: ASxyz",
    ]);
    assert_eq!(whois_from_lines(&not_a_number), Err(WhoisError::BadAsn));
    let overflow = lines(&[
        "% Information related to 'route/192.0.2.0/24AS64496'",
        "origin: AS99999999999",
    ]);
    assert_eq!(whois_from_lines(&overflow), Err(WhoisError::BadAsn));
}

#[test]
fn decode_checks_the_calendar_range() {
    let ok = decode_post_row(1, "c".to_string(), None, "ip".to_string(), None, None,
        None, 1, TS_MIN);
    assert!(ok.is_ok());
    let ok = decode_post_row(1, "c".to_string(), None, "ip".to_string(), None, None,
        None, 1, TS_MAX);
    assert!(ok.is_ok());
    let low = decode_post_row(1, "c".to_string(), None, "ip".to_string(), None, None,
        None, 1, TS_MIN - 1);
    assert_eq!(low, Err(DecodeError::BadTimestamp));
    let high = decode_post_row(1, "c".to_string(), None, "ip".to_string(), None, None,
        None, 1, TS_MAX + 1);
    assert_eq!(high, Err(DecodeError::BadTimestamp));
}

#[test]
fn decode_pairs_the_whois_columns() {
    let row = decode_post_row(1, "c".to_string(), None, "ip".to_string(),
        Some(64496), Some("M".to_string()), None, 1, 0).expect("decodes");
    let w = row.whois.expect("both columns present");
    assert_eq!(w.asn, 64496);
    let row = decode_post_row(1, "c".to_string(), None, "ip".to_string(),
        Some(64496), None, None, 1, 0).expect("decodes");
    assert!(row.whois.is_none());
    let row = decode_post_row(1, "c".to_string(), None, "ip".to_string(),
        None, Some("M".to_string()), None, 1, 0).expect("decodes");
    assert!(row.whois.is_none());
}

#[test]
fn login_outcomes() {
    let admins = vec![
        Admin { name: "alice".to_string(), password: "letmein".to_string() },
        Admin { name: "bob".to_string(), password: "hunter2".to_string() },
    ];
    let attempt = |user: &str, pass: &str| {
        check_login(&admins, &LoginForm { user: user.to_string(), pass: pass.to_string() })
    };
    assert_eq!(attempt("carol", "x"), LoginOutcome::UnknownUser);
    assert_eq!(attempt("bob", "wrong"), LoginOutcome::WrongPassword);
    assert_eq!(attempt("bob", "hunter2"), LoginOutcome::Accepted);
}

#[test]
fn submission_validation_order_and_messages() {
    let fmt = formatter().expect("formatter builds");
    let sub = |content: &str, image: Option<Vec<u8>>, reply: Option<&str>| Submission {
        content: content.to_string(),
        image,
        reply: reply.map(|r| r.to_string()),
    };

    let r = prepare_submission(sub("", None, None), 10, &fmt);
    assert_eq!(r.as_ref().err(), Some(&SubmitError::EmptyContent));
    match submit_error_flash(&SubmitError::EmptyContent, 10) {
        Flash::Error(m) => assert_eq!(m, "Post content cannot be empty".to_string()),
        _ => panic!("expected an error flash"),
    }

    let r = prepare_submission(sub("12345678901", None, None), 10, &fmt);
    assert_eq!(r.as_ref().err(), Some(&SubmitError::TooLong));
    match submit_error_flash(&SubmitError::TooLong, 500) {
        Flash::Error(m) => assert_eq!(m, "Post content too long (max 500 chars)".to_string()),
        _ => panic!("expected an error flash"),
    }

    let r = prepare_submission(sub("ok", Some(b"not an image".to_vec()), None), 10, &fmt);
    assert_eq!(r.as_ref().err(), Some(&SubmitError::BadImage));

    let r = prepare_submission(sub("ok", None, Some("12a")), 10, &fmt);
    assert_eq!(r.as_ref().err(), Some(&SubmitError::BadReplyId));

    // An empty upload and an empty reply field count as absent.
    let p = prepare_submission(sub("ok", Some(Vec::new()), Some("")), 10, &fmt)
        .expect("accepted");
    assert!(p.image.is_none());
    assert!(p.reply.is_none());

    let png = b"\x89PNG\r\n\x1a\n\x00\x00".to_vec();
    let p = prepare_submission(sub("ok", Some(png.clone()), Some("42")), 10, &fmt)
        .expect("accepted");
    assert_eq!(p.reply, Some(42));
    let img = p.image.expect("image kept");
    assert_eq!(img.bytes, png);
    assert_eq!(img.filename.len(), 36);
    assert!(img.filename.ends_with(".png"));
    assert!(img.filename[..32].chars().all(|c| c.is_ascii_alphanumeric()));
}

#[test]
fn formatter_renders_accepted_tags() {
    let fmt = formatter().expect("formatter builds");
    let p = prepare_submission(
        Submission {
            content: "[b]bold[/b] & plain".to_string(),
            image: None,
            reply: None,
        },
        100,
        &fmt,
    )
    .expect("accepted");
    assert!(p.content.contains("<b>bold</b>"));
    assert!(!p.content.contains("[b]"));
    // The renderer escapes what HTML would swallow.
    assert!(p.content.contains("&amp;"));
}

#[test]
fn numbers_render_in_decimal() {
    assert_eq!(usize_to_string(0), "0".to_string());
    assert_eq!(usize_to_string(7), "7".to_string());
    assert_eq!(usize_to_string(500), "500".to_string());
    assert_eq!(usize_to_string(90210), "90210".to_string());
}
