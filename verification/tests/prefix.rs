use audio_scan::{bounded_prefix, AudioFile, PREFIX_LIMIT};

fn pattern(len: usize) -> Vec<u8> {
    let mut bytes: Vec<u8> = Vec::with_capacity(len);
    let mut i: usize = 0;
    while i < len {
        bytes.push((i % 251) as u8);
        i += 1;
    }
    bytes
}

#[test]
fn limit_is_256_kib() {
    assert_eq!(PREFIX_LIMIT, 262144);
    assert_eq!(PREFIX_LIMIT, 256 * 1024);
}

#[test]
fn short_content_is_kept_whole() {
    let bytes = pattern(100);
    assert_eq!(bounded_prefix(bytes.clone()), bytes);
}

#[test]
fn empty_content_is_kept() {
    assert_eq!(bounded_prefix(Vec::new()), Vec::<u8>::new());
}

#[test]
fn content_one_below_limit_is_kept_whole() {
    let bytes = pattern(262143);
    assert_eq!(bounded_prefix(bytes.clone()), bytes);
}

#[test]
fn content_at_limit_is_kept_whole() {
    let bytes = pattern(262144);
    assert_eq!(bounded_prefix(bytes.clone()), bytes);
}

#[test]
fn content_one_above_limit_is_cut() {
    let bytes = pattern(262145);
    let kept = bounded_prefix(bytes.clone());
    assert_eq!(kept.len(), 262144);
    assert_eq!(kept[..], bytes[..262144]);
}

#[test]
fn long_content_is_cut_to_its_first_bytes() {
    let bytes = pattern(300000);
    let kept = bounded_prefix(bytes.clone());
    assert_eq!(kept.len(), 262144);
    assert_eq!(kept[..], bytes[..262144]);
}

#[test]
fn audio_file_keeps_name_path_and_short_content() {
    let file = AudioFile::new("c.flac".to_string(), "root/sub/c.flac".to_string(), pattern(100));
    assert_eq!(file.name(), "c.flac");
    assert_eq!(file.path(), "root/sub/c.flac");
    assert_eq!(file.data(), &pattern(100));
}

#[test]
fn audio_file_cuts_long_content() {
    let bytes = pattern(300000);
    let file = AudioFile::new("a.mp3".to_string(), "root/a.mp3".to_string(), bytes.clone());
    assert_eq!(file.data().len(), 262144);
    assert_eq!(file.data()[..], bytes[..262144]);
}

#[test]
fn audio_file_clone_is_equal() {
    let file = AudioFile::new("a.mp3".to_string(), "root/a.mp3".to_string(), pattern(10));
    let copy = file.clone();
    assert_eq!(copy, file);
    assert_eq!(copy.name(), "a.mp3");
    assert_eq!(copy.data(), &pattern(10));
}

#[test]
fn audio_file_comes_apart_into_what_it_was_made_of() {
    let file = AudioFile::new("a.mp3".to_string(), "root/a.mp3".to_string(), pattern(10));
    let (name, path, data) = file.into_parts();
    assert_eq!(name, "a.mp3");
    assert_eq!(path, "root/a.mp3");
    assert_eq!(data, pattern(10));
}
