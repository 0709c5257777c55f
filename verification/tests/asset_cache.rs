use neolove::assets::{starts_with, AssetManager, LoadError, PathBase};
use neolove::color::{Color4, ColorArg};
use neolove::image::{ImageError, TextureUpload};
use neolove::sound::{Sample, SoundError, SoundUpload};

fn at(pcm: i16) -> Sample {
    Sample { level: (pcm as i32 + 40000) as u32, pcm }
}

fn all(values: &[i16]) -> Vec<Sample> {
    values.iter().map(|v| at(*v)).collect()
}

const RED: Color4 = Color4 { r: 255, g: 0, b: 0, a: 255 };
const BLUE: Color4 = Color4 { r: 0, g: 0, b: 255, a: 255 };

fn load(m: &mut AssetManager, key: &str, color: Color4) -> usize {
    match m.open_image(key) {
        Some(id) => id,
        None => m.load_image(key, 1, 1, vec![color]).unwrap(),
    }
}

fn load_sound(m: &mut AssetManager, key: &str, sample: i16) -> usize {
    match m.open_sound(key) {
        Some(id) => id,
        None => m.load_sound_wav(key, 8000, 1, vec![at(sample)], vec![1, 2, 3]),
    }
}

#[test]
fn paths_are_resolved_by_their_beginning() {
    assert_eq!(AssetManager::resolve_path("/abs/cat.png", true), PathBase::Verbatim);
    assert_eq!(AssetManager::resolve_path("./cat.png", true), PathBase::Verbatim);
    assert_eq!(AssetManager::resolve_path("./cat.png", false), PathBase::EnvRoot);
    assert_eq!(AssetManager::resolve_path("../cat.png", false), PathBase::EnvRoot);
    assert_eq!(AssetManager::resolve_path("assets/cat.png", false), PathBase::EnvRoot);
    assert_eq!(AssetManager::resolve_path("assets\\cat.png", false), PathBase::EnvRoot);
    assert_eq!(AssetManager::resolve_path("cat.png", false), PathBase::Assets);
    assert_eq!(AssetManager::resolve_path("assets", false), PathBase::Assets);
    assert_eq!(AssetManager::resolve_path("assetsx/cat.png", false), PathBase::Assets);
    assert_eq!(AssetManager::resolve_path(".cat.png", false), PathBase::Assets);
    assert_eq!(AssetManager::resolve_path("sub/./cat.png", false), PathBase::Assets);
    assert_eq!(AssetManager::resolve_path("", false), PathBase::Assets);
}

#[test]
fn starts_with_compares_character_by_character() {
    assert!(starts_with("assets/x", "assets/"));
    assert!(starts_with("abc", ""));
    assert!(starts_with("", ""));
    assert!(!starts_with("", "a"));
    assert!(!starts_with("ab", "abc"));
    assert!(!starts_with("äb", "a"));
    assert!(starts_with("äb", "ä"));
}

#[test]
fn loading_a_path_twice_gives_the_same_image() {
    let mut m = AssetManager::new();
    assert_eq!(m.open_image("/a.png"), None);
    let first = m.load_image("/a.png", 1, 1, vec![RED]).unwrap();
    let second = load(&mut m, "/a.png", BLUE);
    assert_eq!(first, second);
    assert_eq!(m.image_holders(first), 2);
    assert_eq!(m.image(first).unwrap().get_pixel(0, 0), Ok(RED));
    let third = m.load_image("/a.png", 1, 1, vec![BLUE]).unwrap();
    assert_eq!(third, first);
    assert_eq!(m.image_holders(first), 3);
    assert_eq!(m.image(first).unwrap().get_pixel(0, 0), Ok(RED));
    assert_eq!(m.cached(), (1, 0));
}

#[test]
fn loading_a_path_twice_gives_the_same_sound() {
    let mut m = AssetManager::new();
    let first = load_sound(&mut m, "/a.wav", 5);
    let second = load_sound(&mut m, "/a.wav", 6);
    assert_eq!(first, second);
    assert_eq!(m.sound_holders(first), 2);
    assert_eq!(m.sound(first).unwrap().get_sample(0), Ok(at(5)));
    assert_eq!(m.cached(), (0, 1));
}

#[test]
fn different_paths_give_different_resources() {
    let mut m = AssetManager::new();
    let a = load(&mut m, "/a.png", RED);
    let b = load(&mut m, "/b.png", BLUE);
    assert_ne!(a, b);
    assert_eq!(m.image(a).unwrap().get_pixel(0, 0), Ok(RED));
    assert_eq!(m.image(b).unwrap().get_pixel(0, 0), Ok(BLUE));
    let s = load_sound(&mut m, "/a.png", 1);
    assert_eq!(m.sound(s).unwrap().get_sample(0), Ok(at(1)));
    assert_eq!(m.cached(), (2, 1));
}

#[test]
fn a_payload_of_the_wrong_size_is_refused() {
    let mut m = AssetManager::new();
    assert_eq!(m.load_image("/a.png", 2, 2, vec![RED]), Err(LoadError::BadPayload));
    assert_eq!(m.cached(), (0, 0));
    assert_eq!(m.open_image("/a.png"), None);
}

#[test]
fn an_unloaded_image_fails_until_its_path_is_loaded_again() {
    let mut m = AssetManager::new();
    let id = load(&mut m, "/a.png", RED);
    assert!(m.unload_image(id));
    assert!(m.image(id).unwrap().is_unloaded());
    assert_eq!(m.image(id).unwrap().get_pixel(0, 0), Err(ImageError::Unloaded));
    let args = vec![ColorArg::Number(1), ColorArg::Number(2), ColorArg::Number(3)];
    assert_eq!(m.set_pixel(id, 0, 0, &args), Some(Err(ImageError::Unloaded)));
    assert_eq!(m.fill(id, &args), Some(Err(ImageError::Unloaded)));
    assert_eq!(m.upload_image(id), Some(Err(ImageError::Unloaded)));

    assert_eq!(m.open_image("/a.png"), None);
    let again = m.load_image("/a.png", 1, 2, vec![BLUE, RED]).unwrap();
    assert_eq!(again, id);
    assert_eq!(m.image_holders(id), 2);
    let img = m.image(id).unwrap();
    assert!(!img.is_unloaded());
    assert!(!img.is_dirty());
    assert_eq!(img.size(), Ok((1, 2)));
    assert_eq!(img.get_pixel(0, 0), Ok(BLUE));
    assert_eq!(img.get_pixel(0, 1), Ok(RED));
}

#[test]
fn an_unloaded_sound_fails_until_its_path_is_loaded_again() {
    let mut m = AssetManager::new();
    let id = load_sound(&mut m, "/a.wav", 5);
    assert!(m.unload_sound(id));
    assert_eq!(m.sound(id).unwrap().get_sample(0), Err(SoundError::Unloaded));
    assert_eq!(m.set_sample(id, 0, at(1)), Some(Err(SoundError::Unloaded)));
    assert_eq!(m.upload_sound(id), Some(Err(SoundError::Unloaded)));
    assert_eq!(m.open_sound("/a.wav"), None);
    let again = m.load_sound_wav("/a.wav", 16000, 2, all(&[7, 8]), vec![4]);
    assert_eq!(again, id);
    let s = m.sound(id).unwrap();
    assert_eq!(s.sample_rate(), 16000);
    assert_eq!(s.channels(), 2);
    assert_eq!(s.get_sample(1), Ok(at(8)));
    assert_eq!(s.bytes(), &vec![4]);
}

#[test]
fn a_resource_that_nobody_holds_is_gone_and_its_path_loads_a_new_one() {
    let mut m = AssetManager::new();
    let id = load(&mut m, "/a.png", RED);
    let _same = load(&mut m, "/a.png", RED);
    assert!(!m.release_image(id));
    assert!(m.image(id).is_some());
    assert!(m.release_image(id));
    assert!(m.image(id).is_none());
    assert_eq!(m.image_holders(id), 0);
    assert!(!m.release_image(id));
    assert!(!m.unload_image(id));
    assert_eq!(m.set_pixel(id, 0, 0, &vec![]), None);
    assert_eq!(m.upload_image(id), None);
    assert_eq!(m.cached(), (1, 0));

    assert_eq!(m.open_image("/a.png"), None);
    let fresh = m.load_image("/a.png", 1, 1, vec![BLUE]).unwrap();
    assert_ne!(fresh, id);
    assert_eq!(m.image(fresh).unwrap().get_pixel(0, 0), Ok(BLUE));
    assert_eq!(m.image_holders(fresh), 1);
    assert_eq!(m.cached(), (1, 0));
    assert_eq!(m.open_image("/a.png"), Some(fresh));
}

#[test]
fn gc_removes_the_paths_of_resources_that_nobody_holds() {
    let mut m = AssetManager::new();
    let a = load(&mut m, "/a.png", RED);
    let b = load(&mut m, "/b.png", RED);
    let c = load(&mut m, "/c.png", RED);
    let s = load_sound(&mut m, "/s.wav", 1);
    let t = load_sound(&mut m, "/t.wav", 2);
    assert_eq!(m.gc(), (0, 0));
    assert_eq!(m.cached(), (3, 2));
    m.release_image(a);
    m.release_image(c);
    m.release_sound(t);
    assert_eq!(m.cached(), (3, 2));
    assert_eq!(m.gc(), (2, 1));
    assert_eq!(m.cached(), (1, 1));
    assert_eq!(m.gc(), (0, 0));
    assert_eq!(m.open_image("/b.png"), Some(b));
    assert_eq!(m.open_sound("/s.wav"), Some(s));
    assert_eq!(m.open_image("/a.png"), None);
    assert_eq!(m.open_sound("/t.wav"), None);
    assert_eq!(m.image(b).unwrap().get_pixel(0, 0), Ok(RED));
}

#[test]
fn gc_keeps_the_path_of_an_unloaded_resource_that_is_still_held() {
    let mut m = AssetManager::new();
    let a = load(&mut m, "/a.png", RED);
    m.unload_image(a);
    assert_eq!(m.gc(), (0, 0));
    assert_eq!(m.load_image("/a.png", 1, 1, vec![BLUE]), Ok(a));
}

#[test]
fn gc_on_an_empty_cache_removes_nothing() {
    let mut m = AssetManager::new();
    assert_eq!(m.gc(), (0, 0));
    m.new_image(1, 1, None);
    m.new_sound(8000, 1, 1, None).unwrap();
    assert_eq!(m.gc(), (0, 0));
}

#[test]
fn unloading_a_path_forgets_it_and_releases_the_payload() {
    let mut m = AssetManager::new();
    let a = load(&mut m, "/a.png", RED);
    assert!(m.unload_image_path("/a.png"));
    assert!(m.image(a).unwrap().is_unloaded());
    assert_eq!(m.image_holders(a), 1);
    assert_eq!(m.cached(), (0, 0));
    assert!(!m.unload_image_path("/a.png"));
    assert!(!m.unload_image_path("/never.png"));
    let fresh = m.load_image("/a.png", 1, 1, vec![BLUE]).unwrap();
    assert_ne!(fresh, a);
    assert!(m.image(a).unwrap().is_unloaded());

    let s = load_sound(&mut m, "/s.wav", 3);
    assert!(m.unload_sound_path("/s.wav"));
    assert!(m.sound(s).unwrap().is_unloaded());
    assert!(!m.unload_sound_path("/s.wav"));
}

#[test]
fn unloading_the_path_of_a_resource_that_is_gone_reports_that_it_was_known() {
    let mut m = AssetManager::new();
    let a = load(&mut m, "/a.png", RED);
    m.release_image(a);
    assert!(m.unload_image_path("/a.png"));
    assert_eq!(m.cached(), (0, 0));
}

#[test]
fn images_made_in_code_are_each_their_own() {
    let mut m = AssetManager::new();
    let a = m.new_image(2, 3, None);
    let b = m.new_image(2, 3, Some(BLUE));
    assert_ne!(a, b);
    assert_eq!(m.cached(), (0, 0));
    assert_eq!(m.image(a).unwrap().size(), Ok((2, 3)));
    assert_eq!(m.image(a).unwrap().get_pixel(1, 2), Ok(Color4 { r: 255, g: 255, b: 255, a: 255 }));
    assert_eq!(m.image(b).unwrap().get_pixel(1, 2), Ok(BLUE));
    assert_eq!(m.image_holders(a), 1);
    assert!(!m.image(a).unwrap().is_dirty());
}

#[test]
fn the_extent_of_an_image_is_capped() {
    let mut m = AssetManager::new();
    let a = m.new_image(70000, 1, None);
    assert_eq!(m.image(a).unwrap().size(), Ok((65535, 1)));
    let b = m.new_image(0, 70000, None);
    assert_eq!(m.image(b).unwrap().size(), Ok((0, 65535)));
}

#[test]
fn sounds_made_in_code_hold_whole_frames() {
    let mut m = AssetManager::new();
    let a = m.new_sound(44100, 2, 8, Some(at(0))).unwrap();
    let b = m.new_sound(44100, 2, 7, None).unwrap();
    assert_ne!(a, b);
    assert_eq!(m.sound(a).unwrap().len(), 8);
    assert_eq!(m.sound(b).unwrap().len(), 8);
    assert!(m.sound(a).unwrap().is_dirty());
    assert_eq!(m.cached(), (0, 0));
}

#[test]
fn pixels_are_written_and_uploaded_through_the_cache() {
    let mut m = AssetManager::new();
    let a = m.new_image(2, 2, Some(RED));
    assert_eq!(m.upload_image(a), Some(Ok(TextureUpload::Create)));
    assert_eq!(m.upload_image(a), Some(Ok(TextureUpload::Nothing)));
    let args = vec![ColorArg::Number(0), ColorArg::Number(0), ColorArg::Number(255)];
    assert_eq!(m.set_pixel(a, 1, 1, &args), Some(Ok(())));
    assert!(m.image(a).unwrap().is_dirty());
    assert_eq!(m.image(a).unwrap().get_pixel(1, 1), Ok(BLUE));
    assert_eq!(m.upload_image(a), Some(Ok(TextureUpload::Refresh)));
    assert_eq!(m.upload_image(a), Some(Ok(TextureUpload::Nothing)));
    assert_eq!(m.fill(a, &args), Some(Ok(())));
    assert_eq!(m.image(a).unwrap().get_pixel(0, 0), Ok(BLUE));
    assert_eq!(m.set_pixel(a, 5, 5, &args), Some(Err(ImageError::OutOfBounds)));
}

#[test]
fn samples_are_written_and_uploaded_through_the_cache() {
    let mut m = AssetManager::new();
    let a = m.new_sound(8000, 1, 2, None).unwrap();
    assert_eq!(m.upload_sound(a), Some(Ok(SoundUpload::Load)));
    assert!(m.confirm_sound_upload(a));
    assert!(m.sound(a).unwrap().is_ready());
    assert_eq!(m.upload_sound(a), Some(Ok(SoundUpload::Nothing)));
    assert_eq!(m.set_sample(a, 1, at(9)), Some(Ok(())));
    assert_eq!(m.sound(a).unwrap().get_sample(1), Ok(at(9)));
    assert_eq!(m.upload_sound(a), Some(Ok(SoundUpload::Load)));
    assert_eq!(m.set_sample(a, 2, at(9)), Some(Err(SoundError::OutOfBounds)));
    assert_eq!(m.set_sample(99, 0, at(9)), None);
    assert_eq!(m.upload_sound(99), None);
    assert!(!m.confirm_sound_upload(99));
}

#[test]
fn a_second_load_leaves_the_payload_and_the_paths_alone() {
    let mut m = AssetManager::new();
    let id = m.load_sound_wav("/s.wav", 8000, 1, all(&[1, 2]), vec![9]);
    m.set_sample(id, 0, at(77)).unwrap().unwrap();
    assert_eq!(m.load_sound_wav("/s.wav", 16000, 2, all(&[5, 6]), vec![4]), id);
    let s = m.sound(id).unwrap();
    assert_eq!((s.sample_rate(), s.channels(), s.len()), (8000, 1, 2));
    assert_eq!(s.get_sample(0), Ok(at(77)));
    assert!(s.is_dirty());
    assert_eq!(m.cached(), (0, 1));
}

#[test]
fn a_sound_released_after_an_edit_is_restored_from_its_file() {
    let mut m = AssetManager::new();
    let id = m.load_sound_wav("/s.wav", 8000, 1, all(&[1, 2]), vec![9]);
    m.set_sample(id, 0, at(77)).unwrap().unwrap();
    m.unload_sound(id);
    assert_eq!(m.load_sound_wav("/s.wav", 8000, 1, all(&[1, 2]), vec![9]), id);
    let s = m.sound(id).unwrap();
    assert_eq!(s.get_sample(0), Ok(at(1)));
    assert!(!s.is_dirty());
    assert!(!s.is_unloaded());
}
