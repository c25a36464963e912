use foxycompressor::protocol::{classify, progress_line, stage_line, total_line, Event};
use foxycompressor::session::{Preset, Session};

fn progress(e: Event) -> (Option<usize>, Option<usize>, String) {
    match e {
        Event::Progress { completed, total, status } => (completed, total, status),
        _ => panic!("not a progress report"),
    }
}

#[test]
fn worker_lines_have_their_format() {
    assert_eq!(total_line(12), "@FOXY_TOTAL 12");
    assert_eq!(progress_line(3, 12, "Images", "nested/photo.jpg"), "@FOXY_PROGRESS 3 12 Images nested/photo.jpg");
    assert_eq!(stage_line("Audio"), "@FOXY_STAGE Audio 0");
}

#[test]
fn total_line_reads_back() {
    for n in [0usize, 7, 10, 12345, usize::MAX] {
        match classify(&total_line(n)) {
            Event::Total(m) => assert_eq!(m, n),
            _ => panic!("total not read back"),
        }
    }
}

#[test]
fn progress_line_reads_back() {
    let (c, t, s) = progress(classify(&progress_line(4, 9, "Documents", "archive")));
    assert_eq!((c, t), (Some(4), Some(9)));
    assert_eq!(s, "Documents archive");
    let (c, t, s) = progress(classify(&progress_line(1, 2, "Images", "my_photo file.jpg")));
    assert_eq!((c, t), (Some(1), Some(2)));
    assert_eq!(s, "Images my photo file.jpg");
}

#[test]
fn stage_line_reads_back() {
    match classify(&stage_line("Other")) {
        Event::Stage(v) => assert_eq!(v, "Other 0"),
        _ => panic!("stage not read back"),
    }
}

#[test]
fn progress_report_edge_cases() {
    let (c, t, s) = progress(classify("@FOXY_PROGRESS x 5"));
    assert_eq!((c, t, s.as_str()), (None, Some(5), "Processing"));
    let (c, t, s) = progress(classify("@FOXY_PROGRESS 2"));
    assert_eq!((c, t, s.as_str()), (Some(2), None, "Processing"));
    let (c, t, s) = progress(classify("  @FOXY_PROGRESS +3 99999999999999999999999 a_b  "));
    assert_eq!((c, t, s.as_str()), (Some(3), None, "a b"));
}

#[test]
fn other_lines() {
    assert!(matches!(classify("   \t "), Event::Blank));
    match classify("  Created out/audio.7z\r") {
        Event::Line(l) => assert_eq!(l, "Created out/audio.7z"),
        _ => panic!("plain line expected"),
    }
    match classify("@FOXY_TOTAL abc") {
        Event::Line(l) => assert_eq!(l, "@FOXY_TOTAL abc"),
        _ => panic!("unreadable total is a plain line"),
    }
    match classify("@FOXY_VIDEO 0.2500") {
        Event::Video { value, line } => {
            assert_eq!(value, "0.2500");
            assert_eq!(line, "@FOXY_VIDEO 0.2500");
        }
        _ => panic!("video report expected"),
    }
    match classify("@FOXY_TOTAL -1") {
        Event::Line(_) => {}
        _ => panic!("negative totals do not read"),
    }
}

#[test]
fn session_follows_the_worker() {
    let mut s = Session::new();
    s.input = "in".to_string();
    s.output = "out".to_string();
    assert!(s.ready_to_start());
    s.started();
    assert!(s.running);
    assert_eq!(s.status, "Scanning input...");
    s.apply(classify(&total_line(3)));
    assert_eq!(s.total, 3);
    assert_eq!(s.status, "Preparing 3 operations...");
    s.apply(classify(&progress_line(1, 3, "Images", "a_b.jpg")));
    assert_eq!(s.completed, 1);
    assert_eq!(s.status, "Images a b.jpg");
    s.apply(classify(&stage_line("Audio")));
    assert_eq!(s.status, "Compressing Audio 0");
    s.apply(classify("Created out/audio.7z"));
    assert_eq!(s.logs.lines(), &vec!["Created out/audio.7z".to_string()]);
    s.apply(classify("   "));
    assert_eq!(s.logs.len(), 1);
    s.finished(true);
    assert!(!s.running);
    assert_eq!(s.status, "Compression complete.");
    s.finished(false);
    assert_eq!(s.status, "Compression completed with warnings or errors.");
}

#[test]
fn log_keeps_the_last_lines() {
    let mut s = Session::new();
    for i in 0..200 {
        s.apply(classify(&format!("line {}", i)));
        assert!(s.logs.len() <= 150);
    }
    assert_eq!(s.logs.len(), 150);
    assert_eq!(s.logs.lines()[0], "line 50");
    assert_eq!(s.logs.lines()[149], "line 199");
}

#[test]
fn start_needs_both_folders() {
    let mut s = Session::new();
    assert_eq!(s.status, "Choose folders, then select your compression profile.");
    s.input = "in".to_string();
    assert!(!s.ready_to_start());
    assert_eq!(s.status, "Choose an input and output folder first.");
    s.worker_missing();
    assert_eq!(s.status, "Could not find foxycompressor beside the GUI executable.");
    s.start_failed("no such file");
    assert_eq!(s.status, "Could not start the CLI: no such file");
    s.cancelled();
    assert!(!s.running);
    assert_eq!(s.status, "Cancelled. Completed output remains available.");
}

#[test]
fn worker_arguments() {
    let mut s = Session::new();
    s.input = "in".to_string();
    s.output = "out".to_string();
    assert_eq!(
        s.worker_args(),
        vec!["in", "out", "--image-quality", "80", "--video-crf", "28", "--video-bitrate", "500k", "--video-preset", "slow", "--archive-level", "9"]
    );
}

#[test]
fn presets_set_their_values() {
    let mut s = Session::new();
    assert_eq!((s.image_quality, s.video_crf, s.archive_level), (80, 28, 9));
    s.select_image_preset(Preset::Gentle);
    assert_eq!(s.image_quality, 92);
    s.select_image_preset(Preset::Ultra);
    assert_eq!(s.image_quality, 62);
    s.select_video_preset(Preset::Gentle);
    assert_eq!((s.video_crf, s.video_bitrate.as_str(), s.video_speed.as_str()), (21, "2M", "medium"));
    s.select_video_preset(Preset::Ultra);
    assert_eq!((s.video_crf, s.video_bitrate.as_str(), s.video_speed.as_str()), (32, "300k", "slower"));
    assert_eq!(s.image_preset, Preset::Ultra);
    assert_eq!(Preset::Balanced.label(), "Balanced");
    assert_eq!(Preset::Gentle.label(), "Gentle");
    assert_eq!(Preset::Ultra.description(), "size-first");
    assert_eq!(Preset::Balanced.video_bitrate(), "500k");
    assert_eq!(Preset::Balanced.video_speed(), "slow");
}

#[test]
fn counts_read_back_whatever_the_label() {
    for label in ["", "   ", "a b ", "x"] {
        let (c, t, _) = progress(classify(&progress_line(5, 8, "Videos", label)));
        assert_eq!((c, t), (Some(5), Some(8)));
    }
    let (c, t, s) = progress(classify(&progress_line(5, 8, "", "")));
    assert_eq!((c, t, s.as_str()), (Some(5), Some(8), "Processing"));
}
