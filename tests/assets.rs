use std::collections::HashMap;
use yomiage::emoji::EmojiDB;
use yomiage::settings::{
    destroy_instance, get_instance, get_speaker_id, store_instance, store_speaker_id,
    DEFAULT_SPEAKER,
};
use yomiage::sozai::{index_entries, Asset};

fn asset(names: &[&str], url: &str) -> Asset {
    Asset {
        hash: "h".to_string(),
        id: "i".to_string(),
        names: names.iter().map(|s| s.to_string()).collect(),
        namespaces: vec![],
        path: "p".to_string(),
        url: url.to_string(),
    }
}

#[test]
fn index_entries_flatten_names() {
    let assets = vec![asset(&["a", "b"], "u1"), asset(&[], "u2"), asset(&["a"], "u3")];
    let e = index_entries(&assets);
    let expected: Vec<(String, String)> = vec![
        ("a".into(), "u1".into()),
        ("b".into(), "u1".into()),
        ("a".into(), "u3".into()),
    ];
    assert_eq!(e, expected);
    assert!(index_entries(&vec![]).is_empty());
}

#[test]
fn emoji_dictionary_is_shared() {
    let mut m = HashMap::new();
    m.insert("😀".to_string(), "にっこり".to_string());
    let db = EmojiDB::new(m);
    let d = db.get_dictionary();
    assert_eq!(d.get("😀").map(String::as_str), Some("にっこり"));
    assert_eq!(d.len(), 1);
}

#[test]
fn settings_default_and_store() {
    let mut voices: HashMap<u64, u32> = HashMap::new();
    assert_eq!(get_speaker_id(&voices, 1), DEFAULT_SPEAKER);
    assert_eq!(DEFAULT_SPEAKER, 0);
    store_speaker_id(&mut voices, 1, 8);
    assert_eq!(get_speaker_id(&voices, 1), 8);
    assert_eq!(get_speaker_id(&voices, 2), 0);

    let mut inst: HashMap<u64, u64> = HashMap::new();
    assert_eq!(get_instance(&inst, Some(3)), None);
    store_instance(&mut inst, 3, 30);
    assert_eq!(get_instance(&inst, Some(3)), Some(30));
    assert_eq!(get_instance(&inst, None), None);
    destroy_instance(&mut inst, 3);
    assert_eq!(get_instance(&inst, Some(3)), None);
}
