use yomiage::catalog::{
    assemble_catalog, listings_are_paired, Speaker, SpeakerEntry, SpeakerInfo, SpeakerStyle,
    StyleEntry, StyleInfo,
};
use yomiage::client::{Client, SynthesisError, SynthesisStep};

fn style(name: &str, id: u32) -> SpeakerStyle {
    SpeakerStyle { name: name.to_string(), id, icon: vec![id as u8], voice_samples: vec![vec![1, 2]] }
}

fn speaker(name: &str, styles: Vec<SpeakerStyle>) -> Speaker {
    Speaker { name: name.to_string(), policy: format!("{name} policy"), styles }
}

fn sample_catalog() -> Vec<Speaker> {
    vec![
        speaker("A", vec![style("normal", 0), style("sweet", 1)]),
        speaker("B", vec![style("normal", 2), style("dup", 1)]),
    ]
}

#[test]
fn lookup_absent_id_is_none() {
    let c = Client::new(sample_catalog());
    assert!(c.query_style_by_id(99).is_none());
    assert!(Client::new(vec![]).query_style_by_id(0).is_none());
}

#[test]
fn lookup_returns_first_match() {
    let c = Client::new(sample_catalog());
    let v = c.query_style_by_id(1).unwrap();
    assert_eq!((v.speaker_i, v.style_i), (0, 1));
    assert_eq!(v.speaker_name, "A");
    assert_eq!(v.speaker_policy, "A policy");
    assert_eq!(v.style_name, "sweet");
    assert_eq!(v.style_id, 1);
    assert_eq!(v.style_icon, &vec![1u8]);
    assert_eq!(v.style_voice_samples, &vec![vec![1u8, 2]]);
    let w = c.query_style_by_id(2).unwrap();
    assert_eq!((w.speaker_i, w.style_i, w.speaker_name.as_str()), (1, 0, "B"));
    assert_eq!(c.get_speakers().len(), 2);
}

#[test]
fn miss_goes_to_analysis_then_render() {
    let mut c = Client::new(vec![]);
    match c.tts_begin("こんにちは", 3) {
        SynthesisStep::Analyze { text, speaker } => {
            assert_eq!(text, "こんにちは");
            assert_eq!(speaker, 3);
        }
        _ => panic!("expected analysis"),
    }
    match Client::tts_analyzed("こんにちは".to_string(), 3, Ok("{\"q\":1}".to_string())) {
        SynthesisStep::Render { text, speaker, query } => {
            assert_eq!((text.as_str(), speaker, query.as_str()), ("こんにちは", 3, "{\"q\":1}"));
        }
        _ => panic!("expected render"),
    }
    match Client::tts_analyzed("x".to_string(), 3, Err(())) {
        SynthesisStep::Done(Err(e)) => assert_eq!(e, SynthesisError::Analysis),
        _ => panic!("expected failure"),
    }
    match c.tts_rendered("x".to_string(), 3, Err(())) {
        SynthesisStep::Done(Err(e)) => assert_eq!(e, SynthesisError::Render),
        _ => panic!("expected failure"),
    }
    assert!(matches!(c.tts_begin("x", 3), SynthesisStep::Analyze { .. }));
}

#[test]
fn cache_round_trip() {
    let mut c = Client::new(vec![]);
    let audio = vec![82u8, 73, 70, 70, 0, 1, 2];
    match c.tts_rendered("hello".to_string(), 7, Ok(audio.clone())) {
        SynthesisStep::Done(Ok(b)) => assert_eq!(b, audio),
        _ => panic!("expected audio"),
    }
    match c.tts_begin("hello", 7) {
        SynthesisStep::Done(Ok(b)) => assert_eq!(b, audio),
        _ => panic!("expected a cache hit"),
    }
    assert!(matches!(c.tts_begin("hello", 8), SynthesisStep::Analyze { .. }));
    assert!(matches!(c.tts_begin("hello!", 7), SynthesisStep::Analyze { .. }));
    match Client::tts_looked_up(Some(vec![9]), "t", 1) {
        SynthesisStep::Done(Ok(b)) => assert_eq!(b, vec![9]),
        _ => panic!("expected the cached audio"),
    }
}

fn entry(name: &str, styles: &[(&str, u32)]) -> SpeakerEntry {
    SpeakerEntry {
        name: name.to_string(),
        speaker_uuid: format!("uuid-{name}"),
        styles: styles.iter().map(|(n, id)| StyleEntry { name: n.to_string(), id: *id }).collect(),
    }
}

fn info(policy: &str, ids: &[u32]) -> SpeakerInfo {
    SpeakerInfo {
        policy: policy.to_string(),
        style_infos: ids
            .iter()
            .map(|id| StyleInfo { id: *id, icon: vec![*id as u8, 0], voice_samples: vec![vec![*id as u8]] })
            .collect(),
    }
}

#[test]
fn catalog_assembly_pairs_styles_by_id() {
    let entries = vec![entry("A", &[("normal", 3), ("angry", 4)]), entry("B", &[("calm", 5)])];
    let infos = vec![info("pa", &[4, 3]), info("pb", &[5])];
    assert!(listings_are_paired(&entries, &infos));
    let cat = assemble_catalog(&entries, &infos);
    assert_eq!(cat.len(), 2);
    assert_eq!(cat[0].name, "A");
    assert_eq!(cat[0].policy, "pa");
    assert_eq!(cat[0].styles[0].name, "normal");
    assert_eq!(cat[0].styles[0].id, 3);
    assert_eq!(cat[0].styles[0].icon, vec![3, 0]);
    assert_eq!(cat[0].styles[1].voice_samples, vec![vec![4]]);
    assert_eq!(cat[1].styles[0].icon, vec![5, 0]);
}

#[test]
fn catalog_listings_must_pair_one_to_one() {
    let entries = vec![entry("A", &[("normal", 3)])];
    assert!(listings_are_paired(&entries, &vec![info("p", &[3])]));
    assert!(!listings_are_paired(&entries, &vec![]));
    assert!(!listings_are_paired(&entries, &vec![info("p", &[9])]));
    assert!(!listings_are_paired(&entries, &vec![info("p", &[3, 4])]));
    let shared = vec![entry("A", &[("normal", 3), ("again", 3)])];
    assert!(!listings_are_paired(&shared, &vec![info("p", &[3, 4])]));
    assert!(!listings_are_paired(&shared, &vec![info("p", &[3, 3])]));
    assert!(listings_are_paired(&vec![], &vec![]));
    assert!(assemble_catalog(&vec![], &vec![]).is_empty());
}
