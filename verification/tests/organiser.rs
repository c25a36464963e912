use foxycompressor::category::{category_for, Category};
use foxycompressor::layout::{archive_entry_name, archive_path, destination, ffmpeg_candidates, portable_path};
use foxycompressor::path::{path_extension, path_join, path_with_extension};
use std::path::PathBuf;

#[test]
fn classifies_known_extensions_case_insensitively() {
    assert_eq!(category_for("photo.JpG"), Category::Images);
    assert_eq!(category_for("movie.MKV"), Category::Videos);
    assert_eq!(category_for("notes.PDF"), Category::Documents);
    assert_eq!(category_for("sound.FLAC"), Category::Audio);
    assert_eq!(category_for("binary.bin"), Category::Other);
}

#[test]
fn destination_keeps_nested_relative_path() {
    let result = destination("out", Category::Images, "nested/photo.jpg", Some("webp"));
    assert_eq!(PathBuf::from(result), PathBuf::from("out/Images/nested/photo.webp"));
}

#[test]
fn archive_names_are_stable() {
    assert_eq!(Category::Audio.archive_name(), "audio.7z");
    assert_eq!(Category::Documents.archive_name(), "documents.7z");
    assert_eq!(Category::Other.archive_name(), "other.7z");
}

#[test]
fn folders_are_named_after_categories() {
    assert_eq!(Category::Images.folder(), "Images");
    assert_eq!(Category::Videos.folder(), "Videos");
    assert_eq!(Category::Audio.folder(), "Audio");
    assert_eq!(Category::Documents.folder(), "Documents");
    assert_eq!(Category::Other.folder(), "Other");
}

#[test]
fn classification_looks_only_at_the_extension() {
    assert_eq!(category_for("dir.mp4/readme"), Category::Other);
    assert_eq!(category_for("archive.tar.GZ"), Category::Other);
    assert_eq!(category_for("clip.webm"), Category::Videos);
    assert_eq!(category_for("a/b/c.Mid"), Category::Audio);
    assert_eq!(category_for("script.py"), Category::Documents);
    assert_eq!(category_for(".png"), Category::Other);
    assert_eq!(category_for("photo.png/"), Category::Images);
    assert_eq!(category_for("photo.jpeg/."), Category::Images);
    assert_eq!(category_for("noext"), Category::Other);
    assert_eq!(category_for(""), Category::Other);
}

#[test]
fn case_of_extension_does_not_matter() {
    for ext in ["jpg", "mkv", "flac", "docx", "zip"] {
        let lower = category_for(&format!("f.{}", ext));
        let upper = category_for(&format!("f.{}", ext.to_ascii_uppercase()));
        assert_eq!(lower, upper);
    }
}

#[test]
fn extension_follows_std() {
    for p in ["a.txt", "a", ".hidden", "a.", "a.b.c", "dir/.x.y", "dir/", "..", "a/..", "/", "a/.", "", "x/y.tar.gz//"] {
        let expected = std::path::Path::new(p).extension().map(|e| e.to_str().unwrap().to_string());
        assert_eq!(path_extension(p), expected, "extension of {:?}", p);
    }
}

#[test]
fn with_extension_follows_std() {
    for p in ["a.txt", "a", ".hidden", "a.", "a.b.c", "dir/.x.y", "dir/", "..", "a/..", "/", "a/.", "", "x/y.tar.gz//", "./b"] {
        for e in ["webp", "", "svg"] {
            let expected = std::path::Path::new(p).with_extension(e);
            assert_eq!(path_with_extension(p, e), expected.to_str().unwrap(), "{:?} with {:?}", p, e);
        }
    }
}

#[test]
fn join_follows_std() {
    for a in ["out", "out/", "", "/abs"] {
        for b in ["x", "x/y", "/root", ""] {
            let expected = std::path::Path::new(a).join(b);
            assert_eq!(path_join(a, b), expected.to_str().unwrap(), "{:?} join {:?}", a, b);
        }
    }
}

#[test]
fn destination_without_extension_keeps_name() {
    let result = destination("out", Category::Videos, "clips/film.MOV", None);
    assert_eq!(result, "out/Videos/clips/film.MOV");
    let result = destination("out/", Category::Videos, "film", Some("mp4"));
    assert_eq!(result, "out/Videos/film.mp4");
}

#[test]
fn archives_and_entries() {
    assert_eq!(archive_path("out", Category::Audio), "out/audio.7z");
    assert_eq!(archive_path("out/", Category::Other), "out/other.7z");
    assert_eq!(archive_entry_name("music\\live\\a.mp3"), "music/live/a.mp3");
    assert_eq!(archive_entry_name("plain/a.txt"), "plain/a.txt");
}

#[test]
fn ffmpeg_is_looked_for_in_each_folder() {
    let dirs = vec!["/opt/app/assets".to_string(), "work/assets".to_string()];
    assert_eq!(
        ffmpeg_candidates(&dirs, false),
        vec![
            "/opt/app/assets/ffmpeg".to_string(),
            "/opt/app/assets/ffmpeg.exe".to_string(),
            "work/assets/ffmpeg".to_string(),
            "work/assets/ffmpeg.exe".to_string(),
        ]
    );
    assert_eq!(
        ffmpeg_candidates(&dirs[..1].to_vec(), true),
        vec!["/opt/app/assets/ffmpeg.exe".to_string(), "/opt/app/assets/ffmpeg".to_string()]
    );
    assert!(ffmpeg_candidates(&Vec::new(), true).is_empty());
}

#[test]
fn copied_video_keeps_its_name() {
    for rel in ["film.MOV", "a/b/clip.webm", "x.y.avi"] {
        let ext = path_extension(rel);
        let target = destination("out", Category::Videos, rel, ext.as_deref());
        assert_eq!(target, format!("out/Videos/{}", rel));
    }
}

#[test]
fn destination_below_any_output() {
    assert_eq!(destination("", Category::Audio, "a/b.mp3", Some("x")), "Audio/a/b.x");
    assert_eq!(destination("out/", Category::Images, "p.jpg", Some("webp")), "out/Images/p.webp");
    assert_eq!(destination("/", Category::Other, "q", Some("z")), "/Other/q.z");
}

#[test]
fn windows_separators_become_slashes() {
    assert_eq!(portable_path("in\\photos\\a.JPG", true), "in/photos/a.JPG");
    assert_eq!(portable_path("in\\photos\\a.JPG", false), "in\\photos\\a.JPG");
    assert_eq!(category_for(&portable_path("dir.jpg\\.jpg", true)), Category::Other);
    assert_eq!(category_for(&portable_path("dir\\photo.jpg", true)), Category::Images);
}

#[test]
fn extensions_hold_no_separator() {
    for p in ["a/b.c", "x.y/", "a.b/c.d/."] {
        if let Some(e) = path_extension(p) {
            assert!(!e.contains('/'));
        }
    }
}

#[test]
fn destination_keeps_folders_and_stem() {
    let d = destination("out", Category::Images, "trip/day.1/img.final.JPG", Some("webp"));
    assert_eq!(d, "out/Images/trip/day.1/img.final.webp");
    assert_eq!(std::path::Path::new(&d).file_name().unwrap(), "img.final.webp");
}
