use foxycompressor::ffmpeg::{conversion_arguments, duration_of, position_of, timestamp_fields};
use foxycompressor::lines::{forward_events, LineSplitter};
use foxycompressor::numbers::{decimal_string, duration_text, parse_usize};
use foxycompressor::text::{chars_of, string_of};

fn lines_of(chunks: &[&[u8]]) -> Vec<Vec<u8>> {
    let mut s = LineSplitter::new();
    let mut out = Vec::new();
    for c in chunks {
        out.extend(s.feed(c));
    }
    if let Some(last) = s.finish() {
        out.push(last);
    }
    out
}

#[test]
fn lines_are_cut_at_breaks() {
    let out = lines_of(&[b"one\r\ntwo\rthree\n\n", b"four"]);
    assert_eq!(out, vec![b"one".to_vec(), b"two".to_vec(), b"three".to_vec(), b"four".to_vec()]);
    assert!(lines_of(&[b"\r\n\n"]).is_empty());
    assert!(lines_of(&[]).is_empty());
}

#[test]
fn lines_do_not_depend_on_pieces() {
    let stream: &[u8] = b"frame=1 time=00:00:01\rframe=2\r\nDone\n";
    let whole = lines_of(&[stream]);
    for cut in 0..=stream.len() {
        let (a, b) = stream.split_at(cut);
        assert_eq!(lines_of(&[a, b]), whole);
    }
    let bytes: Vec<&[u8]> = stream.chunks(1).collect();
    assert_eq!(lines_of(&bytes), whole);
}

#[test]
fn numbers_in_decimal() {
    assert_eq!(decimal_string(0), "0");
    assert_eq!(decimal_string(907), "907");
    assert_eq!(decimal_string(u64::MAX), u64::MAX.to_string());
    for s in ["0", "+42", "42", "", "+", "-1", "4 2", "007", "18446744073709551615", "18446744073709551616", "99999999999999999999"] {
        assert_eq!(parse_usize(&chars_of(s)), s.parse::<usize>().ok(), "{:?}", s);
    }
}

#[test]
fn durations_as_minutes_and_seconds() {
    assert_eq!(duration_text(0), "00:00");
    assert_eq!(duration_text(65), "01:05");
    assert_eq!(duration_text(600), "10:00");
    assert_eq!(duration_text(6005), "100:05");
}

#[test]
fn text_round_trip() {
    assert_eq!(string_of(&chars_of("é x")), "é x");
}

#[test]
fn ffmpeg_output_is_read() {
    let block = "  Duration: 00:01:02.50, start: 0.000000, bitrate: 1200 kb/s\r";
    assert_eq!(duration_of(block), Some("00:01:02.50".to_string()));
    assert_eq!(position_of(block), None);
    let block = "frame=  42 fps=0.0 q=28.0 size=256kB time=00:00:03.20 bitrate= 655.4kbits/s";
    assert_eq!(position_of(block), Some("00:00:03.20".to_string()));
    assert_eq!(duration_of(block), None);
    assert_eq!(position_of("time=   \r"), None);
    assert_eq!(position_of("a time=1 time=2"), Some("1".to_string()));
    assert_eq!(duration_of("Duration: 1:2:3"), Some("1:2:3".to_string()));
}

#[test]
fn timestamps_have_three_parts() {
    assert_eq!(
        timestamp_fields(" 01:02:03.5 "),
        Some(("01".to_string(), "02".to_string(), "03.5".to_string()))
    );
    assert_eq!(timestamp_fields("1:2:3:4"), Some(("1".to_string(), "2".to_string(), "3".to_string())));
    assert_eq!(timestamp_fields("1:2"), None);
    assert_eq!(timestamp_fields(""), None);
}

#[test]
fn conversion_arguments_in_order() {
    let args = conversion_arguments("in.mov", "out/Videos/in.mp4", "500k", 28, "slow");
    assert_eq!(
        args,
        vec![
            "-y", "-hide_banner", "-loglevel", "info", "-stats_period", "1", "-i", "in.mov", "-c:v", "libx264",
            "-b:v", "500k", "-crf", "28", "-preset", "slow", "-movflags", "+faststart", "-vf", "scale=iw:-1",
            "-map_metadata", "0", "out/Videos/in.mp4",
        ]
    );
}

#[test]
fn forwarded_lines_ignore_read_boundaries() {
    let pieces = vec![b"@FOXY_TOTAL 3\r\n@FOXY_PRO".to_vec(), b"GRESS 1 3 Images a.jpg\n".to_vec(), b"\r\ntail".to_vec()];
    let lines = forward_events(&pieces);
    assert_eq!(
        lines,
        vec![b"@FOXY_TOTAL 3".to_vec(), b"@FOXY_PROGRESS 1 3 Images a.jpg".to_vec(), b"tail".to_vec()]
    );
    let whole = vec![pieces.concat()];
    assert_eq!(forward_events(&whole), lines);
    assert!(forward_events(&Vec::new()).is_empty());
}

#[test]
fn decimal_reads_back() {
    for n in [0u64, 1, 9, 10, 99, 100, 123456789, u32::MAX as u64] {
        assert_eq!(parse_usize(&chars_of(&decimal_string(n))), Some(n as usize));
    }
}
