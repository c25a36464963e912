use foxycompressor::category::Category;
use foxycompressor::media::{check_destination, plan_media, MediaWork, VideoSettings};
use foxycompressor::plan::{Plan, Step};

fn settings(copy_videos: bool) -> VideoSettings {
    VideoSettings { copy_videos, bitrate: "500k".to_string(), crf: 28, preset: "slow".to_string() }
}

#[test]
fn plan_groups_files_and_counts_steps() {
    let mut plan = Plan::new();
    assert_eq!(plan.add("in/a.jpg".into(), "a.jpg".into()), Category::Images);
    assert_eq!(plan.add("in/b.MOV".into(), "b.MOV".into()), Category::Videos);
    assert_eq!(plan.add("in/c.mp3".into(), "c.mp3".into()), Category::Audio);
    assert_eq!(plan.add("in/d.mp3".into(), "d.mp3".into()), Category::Audio);
    assert_eq!(plan.add("in/e.bin".into(), "e.bin".into()), Category::Other);
    assert_eq!(plan.total(), 5);
    assert_eq!(plan.archive_count(), 2);
    assert_eq!(plan.work_total(), 4);
    assert_eq!(plan.entries(Category::Audio).len(), 2);
    assert_eq!(plan.entries(Category::Audio)[1].relative, "d.mp3");
    let audio = plan.take(Category::Audio);
    assert_eq!(audio.len(), 2);
    assert!(plan.entries(Category::Audio).is_empty());
    assert_eq!(plan.total(), 3);
    assert_eq!(plan.archive_count(), 1);
}

#[test]
fn empty_plan_has_no_steps() {
    let plan = Plan::new();
    assert_eq!((plan.total(), plan.archive_count(), plan.work_total()), (0, 0, 0));
}

#[test]
fn images_are_encoded_or_copied() {
    let p = plan_media(Category::Images, "in/x/p.PNG", "x/p.PNG", "out", &settings(false));
    assert_eq!(p.destination, "out/Images/x/p.webp");
    assert!(matches!(p.work, MediaWork::EncodeWebp));
    let p = plan_media(Category::Images, "in/logo.SVG", "logo.SVG", "out", &settings(false));
    assert_eq!(p.destination, "out/Images/logo.webp");
    match p.work {
        MediaWork::CopySvg { target } => assert_eq!(target, "out/Images/logo.svg"),
        _ => panic!("svg is copied"),
    }
}

#[test]
fn videos_are_converted_or_kept() {
    let p = plan_media(Category::Videos, "in/v/clip.mov", "v/clip.mov", "out", &settings(false));
    assert_eq!(p.destination, "out/Videos/v/clip.mp4");
    match p.work {
        MediaWork::Convert { args, fallback } => {
            assert_eq!(fallback, "out/Videos/v/clip.mov");
            assert_eq!(args[7], "in/v/clip.mov");
            assert_eq!(args[22], "out/Videos/v/clip.mp4");
            assert_eq!(args.len(), 23);
        }
        _ => panic!("video is converted"),
    }
    let p = plan_media(Category::Videos, "in/v/clip.mov", "v/clip.mov", "out", &settings(true));
    match p.work {
        MediaWork::CopyUnchanged { target } => assert_eq!(target, "out/Videos/v/clip.mov"),
        _ => panic!("video is kept"),
    }
    let p = plan_media(Category::Videos, "in/raw", "raw", "out", &settings(true));
    match p.work {
        MediaWork::CopyUnchanged { target } => assert_eq!(target, "out/Videos/raw"),
        _ => panic!("video is kept"),
    }
}

#[test]
fn existing_destinations_need_overwrite() {
    assert!(check_destination("out/a.webp", false, false).is_ok());
    assert!(check_destination("out/a.webp", true, true).is_ok());
    assert_eq!(
        check_destination("out/a.webp", true, false),
        Err("destination exists (use --overwrite): out/a.webp".to_string())
    );
}

#[test]
fn written_file_is_the_one_checked() {
    let p = plan_media(Category::Images, "in/logo.svg", "logo.svg", "out", &settings(false));
    assert_eq!(p.written, "out/Images/logo.svg");
    let p = plan_media(Category::Images, "in/a.png", "a.png", "out", &settings(false));
    assert_eq!(p.written, p.destination);
    let p = plan_media(Category::Videos, "in/c.mkv", "c.mkv", "out", &settings(true));
    assert_eq!(p.written, "out/Videos/c.mkv");
    let p = plan_media(Category::Videos, "in/c.mkv", "c.mkv", "out", &settings(false));
    assert_eq!(p.written, "out/Videos/c.mp4");
}

#[test]
fn steps_come_in_order_and_match_the_total() {
    let mut plan = Plan::new();
    plan.add("in/v.mp4".into(), "v.mp4".into());
    plan.add("in/z.zip".into(), "z.zip".into());
    plan.add("in/a.jpg".into(), "a.jpg".into());
    plan.add("in/b.jpg".into(), "b.jpg".into());
    plan.add("in/d.txt".into(), "d.txt".into());
    let steps = plan.steps();
    assert_eq!(
        steps,
        vec![
            Step::Media { category: Category::Images, index: 0 },
            Step::Media { category: Category::Images, index: 1 },
            Step::Media { category: Category::Videos, index: 0 },
            Step::Archive(Category::Documents),
            Step::Archive(Category::Other),
        ]
    );
    assert_eq!(steps.len(), plan.work_total());
    assert!(Plan::new().steps().is_empty());
}
