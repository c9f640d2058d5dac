use sidekick_core::config::load_outcome;
use sidekick_core::config::Config;
use sidekick_core::config::ConfigSource;
use sidekick_core::intent::classify;
use sidekick_core::intent::AgentAction;
use sidekick_core::orchestrate::capture_plan;
use sidekick_core::orchestrate::capture_text;
use sidekick_core::orchestrate::replace_plan;
use sidekick_core::orchestrate::InputKey;
use sidekick_core::orchestrate::OsAction;
use sidekick_core::prompt::default_prompt_for;
use sidekick_core::prompt::prompt_file_name;
use sidekick_core::prompt::resolve_prompt;
use sidekick_core::watcher::Watcher;

#[test]
fn default_config_targets_the_local_provider() {
    let c = Config::default();
    assert_eq!(c.llm_provider, "ollama");
    assert_eq!(c.ollama_model, "llama3.1");
    assert_eq!(c.ollama_base_url, "http://localhost:11434");
    assert_eq!(c.theme, "dark");
    assert_eq!(c.hotkey, "Ctrl+Alt+Space");
    assert!(c.permissions.open_files && c.permissions.open_folders && c.permissions.web_search);
    assert!(c.search_roots.is_empty());
    assert!(c.clipboard_sentinel);
    assert_eq!(c.openai_api_key, "");
}

#[test]
fn missing_or_malformed_settings_degrade_to_default() {
    let r = load_outcome(ConfigSource::Missing).unwrap();
    assert_eq!(r.llm_provider, "ollama");
    let r = load_outcome(ConfigSource::Contents(None)).unwrap();
    assert_eq!(r.llm_provider, "ollama");
}

#[test]
fn parsed_settings_win_and_read_failures_surface() {
    let mut c = Config::default();
    c.theme = "light".to_string();
    let r = load_outcome(ConfigSource::Contents(Some(c))).unwrap();
    assert_eq!(r.theme, "light");
    let e = load_outcome(ConfigSource::Unreadable("denied".to_string()));
    assert_eq!(e.err().unwrap(), "denied");
}

#[test]
fn first_use_persists_the_default_prompt() {
    let (text, to_write) = resolve_prompt(None, "D");
    assert_eq!(text, "D");
    assert_eq!(to_write, Some("D".to_string()));
}

#[test]
fn stored_prompt_is_authoritative() {
    let (text, to_write) = resolve_prompt(Some("edited".to_string()), "D");
    assert_eq!(text, "edited");
    assert_eq!(to_write, None);
}

#[test]
fn prompt_files_are_named_after_the_operation() {
    assert_eq!(prompt_file_name("summarize"), "summarize.txt");
}

#[test]
fn known_operations_have_their_own_prompts() {
    assert_eq!(
        default_prompt_for("summarize"),
        "You are a precise summarizer. Summarize the following text concisely."
    );
    assert!(default_prompt_for("fix_grammar").starts_with("You are a copy editor."));
    assert!(default_prompt_for("beautify").starts_with("You are a text polisher."));
    assert!(default_prompt_for("expand").starts_with("You are a helpful assistant. Complete"));
    assert_eq!(default_prompt_for("translate"), "You are a helpful assistant.");
}

#[test]
fn folder_instruction_opens_a_folder() {
    let p = classify("open my folder");
    assert!(matches!(p.action, AgentAction::OpenFolder { ref name } if name == "Downloads"));
    assert!(!p.id.is_empty());
    assert!(p.confidence <= 100);
    assert!(p.candidates.is_empty());
}

#[test]
fn other_instructions_become_a_web_search() {
    let p = classify("search for cats");
    assert!(matches!(p.action, AgentAction::WebSearch { ref query } if query == "search for cats"));
    assert!(!p.id.is_empty());
    assert!(p.confidence <= 100);
}

#[test]
fn watcher_notifies_once_per_text_change() {
    let mut w = Watcher::new(None);
    let seqs = [1u32, 1, 2, 2, 3];
    let texts = ["", "", "x", "x", "y"];
    let mut notes = Vec::new();
    for (s, t) in seqs.iter().zip(texts.iter()) {
        if let Some(n) = w.poll(Some(*s), Some(t.to_string())) {
            notes.push(n);
        }
    }
    assert_eq!(notes, vec!["x".to_string(), "y".to_string()]);
}

#[test]
fn non_text_change_after_text_is_silent() {
    let mut w = Watcher::new(Some(5));
    assert_eq!(w.poll(Some(6), Some("hello".to_string())), Some("hello".to_string()));
    assert_eq!(w.poll(Some(7), None), None);
    assert_eq!(w.last_seq, 7);
    assert_eq!(w.poll(Some(7), Some("hello".to_string())), None);
}

#[test]
fn unreadable_counter_changes_nothing() {
    let mut w = Watcher::new(Some(4));
    assert_eq!(w.poll(None, Some("x".to_string())), None);
    assert_eq!(w.last_seq, 4);
}

#[test]
fn whitespace_clipboard_content_is_not_reported() {
    let mut w = Watcher::new(Some(1));
    assert_eq!(w.poll(Some(2), Some("  \n ".to_string())), None);
    assert_eq!(w.last_seq, 2);
}

#[test]
fn replace_hides_before_pasting_and_shows_after() {
    let plan = replace_plan("replace");
    let hide = plan.iter().position(|a| matches!(a, OsAction::HideWindow)).unwrap();
    let paste = plan
        .iter()
        .position(|a| matches!(a, OsAction::KeyDown(InputKey::KeyV)))
        .unwrap();
    let show = plan.iter().position(|a| matches!(a, OsAction::ShowWindow)).unwrap();
    let focus = plan.iter().position(|a| matches!(a, OsAction::FocusWindow)).unwrap();
    assert!(hide < paste && paste < show && show < focus);
    assert_eq!(
        plan,
        vec![
            OsAction::HideWindow,
            OsAction::SleepMs(150),
            OsAction::KeyDown(InputKey::Control),
            OsAction::KeyDown(InputKey::KeyV),
            OsAction::KeyUp(InputKey::KeyV),
            OsAction::KeyUp(InputKey::Control),
            OsAction::SleepMs(100),
            OsAction::ShowWindow,
            OsAction::FocusWindow,
        ]
    );
}

#[test]
fn non_replace_mode_does_nothing() {
    assert!(replace_plan("copy").is_empty());
    assert!(replace_plan("").is_empty());
}

#[test]
fn capture_presses_copy_then_reads_the_clipboard() {
    let plan = capture_plan();
    assert_eq!(
        plan,
        vec![
            OsAction::KeyDown(InputKey::Control),
            OsAction::KeyDown(InputKey::KeyC),
            OsAction::SleepMs(50),
            OsAction::KeyUp(InputKey::KeyC),
            OsAction::KeyUp(InputKey::Control),
            OsAction::SleepMs(100),
            OsAction::ReadClipboard,
        ]
    );
}

#[test]
fn capture_is_best_effort_never_an_error() {
    assert_eq!(capture_text(Some("sel".to_string())), "sel");
    assert_eq!(capture_text(None), "");
}
