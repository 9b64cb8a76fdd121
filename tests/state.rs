use photo_separation::model::{HistoryEntry, OperationType};
use photo_separation::state::AppState;

fn keys(v: &[(&str, &str)]) -> Vec<(String, String)> {
    v.iter().map(|(a, b)| (a.to_string(), b.to_string())).collect()
}

#[test]
fn providers_follow_found_keys() {
    let st = AppState::new(keys(&[("google", "k1"), ("openai", "k2"), ("google", "k3")]));
    let avail: Vec<(String, bool, u8)> = st.providers.iter().map(|p| (p.name.clone(), p.available, p.priority)).collect();
    assert_eq!(
        avail,
        vec![
            ("google".to_string(), true, 1),
            ("anthropic".to_string(), false, 2),
            ("openai".to_string(), true, 3),
            ("mistral".to_string(), false, 4),
            ("groq".to_string(), false, 5),
            ("ollama".to_string(), false, 6),
        ]
    );
    assert_eq!(st.get_api_key(&"google".to_string()).map(|s| s.as_str()), Some("k3"));
    assert_eq!(st.get_api_key(&"groq".to_string()), None);
    assert!(st.history.is_empty());
    assert_eq!(st.settings.language, "pl");
}

#[test]
fn provider_choice_prefers_setting_then_priority() {
    let mut st = AppState::new(keys(&[("openai", "a"), ("anthropic", "b")]));
    assert_eq!(st.get_available_provider().map(|s| s.as_str()), Some("anthropic"));
    st.settings.preferred_provider = Some("openai".to_string());
    assert_eq!(st.get_available_provider().map(|s| s.as_str()), Some("openai"));
    st.settings.preferred_provider = Some("groq".to_string());
    assert_eq!(st.get_available_provider().map(|s| s.as_str()), Some("anthropic"));
    st.providers[1].enabled = false;
    assert_eq!(st.get_available_provider().map(|s| s.as_str()), Some("openai"));
    st.providers[2].available = false;
    assert_eq!(st.get_available_provider(), None);
}

#[test]
fn set_api_key_makes_provider_available() {
    let mut st = AppState::new(Vec::new());
    assert_eq!(st.get_available_provider(), None);
    st.set_api_key(&"groq".to_string(), "g".to_string());
    assert!(st.providers[4].available);
    assert_eq!(st.get_api_key(&"groq".to_string()).map(|s| s.as_str()), Some("g"));
    assert_eq!(st.get_available_provider().map(|s| s.as_str()), Some("groq"));
    st.set_api_key(&"groq".to_string(), "h".to_string());
    assert_eq!(st.api_keys.len(), 1);
    assert_eq!(st.get_api_key(&"groq".to_string()).map(|s| s.as_str()), Some("h"));
}

#[test]
fn history_keeps_newest_hundred() {
    let mut st = AppState::new(Vec::new());
    for i in 0..105 {
        st.add_history(HistoryEntry::new(OperationType::Restoration, format!("in {}", i), &"google".to_string(), i));
    }
    assert_eq!(st.history.len(), 100);
    assert_eq!(st.history[0].input_preview, "in 104");
    assert_eq!(st.history[99].input_preview, "in 5");
    assert!(!st.history[0].success);
    assert_eq!(st.history[0].id.len(), 36);
    st.clear_history();
    assert!(st.history.is_empty());
}
