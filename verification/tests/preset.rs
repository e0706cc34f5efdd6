use anatro_rs::domain::preset::PresetManager;
use anatro_rs::domain::DomainError;

#[test]
fn presets_by_name_and_default() {
    let mgr = PresetManager::from_entries(vec![
        ("anime_default".to_string(), 1),
        ("movies".to_string(), 2),
        ("anime_default".to_string(), 3),
    ])
    .unwrap();
    assert_eq!(mgr.len(), 2);
    let (name, p) = mgr.get_preset(None).unwrap();
    assert_eq!((name.as_str(), *p), ("anime_default", 3));
    let (name, p) = mgr.get_preset(Some("movies")).unwrap();
    assert_eq!((name.as_str(), *p), ("movies", 2));
    match mgr.get_preset(Some("tv")) {
        Err(DomainError::Message(m)) => {
            assert_eq!(m, "Preset 'tv' not found. Available presets: anime_default, movies")
        }
        other => panic!("{:?}", other.map(|(n, p)| (n, *p))),
    }
}

#[test]
fn empty_presets_are_refused() {
    match PresetManager::<u8>::from_entries(vec![]) {
        Err(DomainError::Message(m)) => assert_eq!(m, "presets.json is empty or invalid."),
        _ => panic!("expected an error"),
    }
}

#[test]
fn preset_errors_show_their_message() {
    let mgr = PresetManager::from_entries(vec![("movies".to_string(), 2)]).unwrap();
    let e = mgr.get_preset(Some("tv")).map(|_| ()).unwrap_err();
    assert_eq!(e.describe(), "Preset 'tv' not found. Available presets: movies");
    let e = PresetManager::<u8>::from_entries(vec![]).map(|_| ()).unwrap_err();
    assert_eq!(e.describe(), "presets.json is empty or invalid.");
}
