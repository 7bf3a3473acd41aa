//! Commands and their envelopes.

use std::collections::HashSet;

use pi_whim::commands::{
    Answer, AppCommand, CommandControlPolicy, CommandDiagnostic, CommandEnvelope, CommandLifecycle,
    CommandSource, CommandStage, ExtensionResponse, ShellCommand, ShellPaste,
    MAX_DIAGNOSTIC_BYTES,
};
use pi_whim::dialogs;
use pi_whim::domain::{
    AgentPermissionLevel, AgentTeamConfig, BashPolicy, Language, ModelOption, ProviderProfile,
    ProviderProtocol, QueueMode, SubmitMode, ThinkingLevel,
};
use pi_whim::json::Json;
use pi_whim::slash_commands::SlashCommand;

fn commands() -> Vec<AppCommand> {
    let project_id = 0u128;
    vec![
        AppCommand::RemoveProject(project_id),
        AppCommand::OpenProject(project_id),
        AppCommand::NewSession(project_id),
        AppCommand::ActivateSession {
            project_id,
            path: "session.jsonl".into(),
        },
        AppCommand::RenameSession {
            path: "session.jsonl".into(),
            title: "title".into(),
        },
        AppCommand::CloneSession,
        AppCommand::DeleteSession("session.jsonl".into()),
        AppCommand::SubmitPrompt {
            content: "prompt".into(),
            attachments: Vec::new(),
            mode: SubmitMode::Prompt,
        },
        AppCommand::AnswerPrompt(Answer::Interaction {
            session_key: "session".into(),
            request_id: "request".into(),
            decision: "approve".into(),
        }),
        AppCommand::DiscardAttachment("generated.txt".into()),
        AppCommand::Stop,
        AppCommand::ClearQueue,
        AppCommand::SetLanguage(Language::English),
        AppCommand::SetBashPolicy(BashPolicy::Ask),
        AppCommand::SetBlockedPatterns(vec!["rm".into()]),
        AppCommand::SetPermissionLevel(AgentPermissionLevel::Controlled),
        AppCommand::SetAgentTeamConfig(AgentTeamConfig::default()),
        AppCommand::LoadAgentsMdFiles,
        AppCommand::SaveGlobalAgentsMd("global".into()),
        AppCommand::SaveProjectAgentsMd("project".into()),
        AppCommand::ApproveProjectHooks {
            fingerprint: "fingerprint".into(),
        },
        AppCommand::RevokeProjectHooks,
        AppCommand::SetOneShotAiConfig(Json::Null),
        AppCommand::SetAutoCompaction(true),
        AppCommand::SetModel(ModelOption {
            provider: "provider".into(),
            provider_name: "Provider".into(),
            id: "model".into(),
            name: "Model".into(),
        }),
        AppCommand::SetThinkingLevel(ThinkingLevel::default()),
        AppCommand::SetQueueModes {
            steering: QueueMode::All,
            follow_up: QueueMode::OneAtATime,
        },
        AppCommand::RunSlashCommand(SlashCommand::ShowHotkeys),
        AppCommand::DeleteProvider(project_id),
        AppCommand::SaveSearchEngines(Vec::new()),
    ]
}

#[test]
fn every_app_command_has_a_unique_stable_name_and_policy() {
    let commands = commands();
    assert_eq!(commands.len(), 30);
    let names = commands
        .iter()
        .map(AppCommand::command_name)
        .collect::<HashSet<_>>();
    assert_eq!(names.len(), commands.len());
    assert!(names.contains("prompt.submit"));
    assert!(names.contains("execution.stop"));
    assert!(names.contains("settings.hooks.revoke"));
    for command in commands {
        assert!(!command.command_name().is_empty());
        let _ = command.control_policy();
        let _ = command.is_safety_command();
    }
}

#[test]
fn safety_commands_are_never_hook_controlled() {
    let mut safety = commands()
        .into_iter()
        .filter(AppCommand::is_safety_command)
        .collect::<Vec<_>>();
    safety.push(AppCommand::AnswerPrompt(Answer::Interaction {
        session_key: "session".into(),
        request_id: "request".into(),
        decision: "deny".into(),
    }));
    safety.push(AppCommand::AnswerPrompt(Answer::Extension {
        session_key: "session".into(),
        request_id: "request".into(),
        response: ExtensionResponse::Cancelled,
    }));
    safety.push(AppCommand::RunSlashCommand(SlashCommand::Stop));
    assert!(!safety.is_empty());
    for command in safety {
        assert!(command.is_safety_command());
        assert_eq!(command.control_policy(), CommandControlPolicy::Bypass);
    }
    assert_eq!(
        AppCommand::SubmitPrompt {
            content: "hello".into(),
            attachments: Vec::new(),
            mode: SubmitMode::Prompt,
        }
        .control_policy(),
        CommandControlPolicy::GateTransform
    );
}

#[test]
fn envelope_debug_is_metadata_only() {
    let project_id = 0x1234_5678u128;
    let envelope = CommandEnvelope::ui(AppCommand::SubmitPrompt {
        content: "prompt-secret-7f13".into(),
        attachments: Vec::new(),
        mode: SubmitMode::Prompt,
    })
    .with_context(Some(project_id), Some("session-key".into()));
    let cloned = envelope.clone();
    assert!(cloned == envelope);
    assert_eq!(envelope.project_id(), Some(project_id));
    assert_eq!(envelope.session_key(), Some("session-key"));
    let debug = envelope.describe("pi_whim::commands::AppCommand");
    assert!(debug.contains("CommandEnvelope"));
    assert!(debug.contains("AppCommand"));
    assert!(!debug.contains("prompt-secret-7f13"));
    assert!(!debug.contains("SubmitPrompt"));
}

#[test]
fn map_payload_preserves_authenticated_metadata_and_changes_type() {
    let project_id = 0x1234_5678u128;
    let envelope =
        CommandEnvelope::new(CommandSource::HookReplay, "payload-secret-26d9".to_owned())
            .with_context(Some(project_id), Some("session-key".to_owned()));
    let command_id = envelope.command_id();

    let mapped = envelope.map_payload(|payload: String| payload.len());

    assert_eq!(mapped.command_id(), command_id);
    assert_eq!(mapped.source(), CommandSource::HookReplay);
    assert_eq!(mapped.project_id(), Some(project_id));
    assert_eq!(mapped.session_key(), Some("session-key"));
    assert_eq!(*mapped.payload(), "payload-secret-26d9".len());
    let debug = mapped.describe("usize");
    assert!(debug.contains("usize"));
    assert!(!debug.contains("payload-secret-26d9"));
}

#[test]
fn lifecycle_has_all_typed_stages_without_payload() {
    let envelope = CommandEnvelope::hook_replay(AppCommand::SubmitPrompt {
        content: "prompt-secret-a981".into(),
        attachments: Vec::new(),
        mode: SubmitMode::Prompt,
    });
    let stages = [
        CommandStage::Submitted,
        CommandStage::Transforming,
        CommandStage::Accepted,
        CommandStage::denied("policy denied"),
        CommandStage::Executing,
        CommandStage::Completed,
        CommandStage::failed("provider diagnostic"),
    ];
    assert_eq!(
        stages.map(|stage| stage.stage_name()),
        [
            "submitted",
            "transforming",
            "accepted",
            "denied",
            "executing",
            "completed",
            "failed",
        ]
    );
    let lifecycle = CommandLifecycle::submitted(&envelope)
        .with_stage(CommandStage::failed("bounded failure"));
    assert_eq!(lifecycle.command_id(), envelope.command_id());
    assert_eq!(lifecycle.command_name(), "prompt.submit");
    assert_eq!(lifecycle.source(), CommandSource::HookReplay);
    let debug = format!("{lifecycle:?}");
    assert!(!debug.contains("prompt-secret-a981"));
    assert!(!debug.contains("api_key"));
}

#[test]
fn diagnostics_and_shell_debug_are_bounded_and_redacted() {
    let diagnostic = CommandDiagnostic::new(&"界".repeat(300));
    assert!(diagnostic.as_str().len() <= MAX_DIAGNOSTIC_BYTES);
    assert!(
        diagnostic
            .as_str()
            .is_char_boundary(diagnostic.as_str().len())
    );

    let command = ShellCommand::SaveProvider {
        profile: ProviderProfile {
            id: 0,
            name: "provider".into(),
            base_url: "https://example.invalid".into(),
            protocol: ProviderProtocol::OpenAiCompletions,
            models: Vec::new(),
            updated_at_ms: 0,
            has_api_key: true,
        },
        api_key: Some("api-key-secret-33c1".into()),
    };
    let debug = command.describe();
    assert!(debug.contains("shell.provider.save"));
    assert!(!debug.contains("api-key-secret-33c1"));
    assert!(!debug.contains("example.invalid"));
}

#[test]
fn a_diagnostic_is_the_longest_start_that_fits() {
    assert_eq!(CommandDiagnostic::new(&"界".repeat(300)).as_str(), "界".repeat(170));
    assert_eq!(CommandDiagnostic::new("short").as_str(), "short");
    assert_eq!(CommandDiagnostic::new(&"x".repeat(513)).as_str().len(), 512);
}

#[test]
fn every_safety_word_is_recognized_in_any_case() {
    for word in ["deny", "Denied", " REJECT ", "rejected", "cancel", "cancelled", "stop", "abort"] {
        assert!(AppCommand::AnswerPrompt(Answer::Interaction {
            session_key: "session".into(),
            request_id: "request".into(),
            decision: word.into(),
        })
        .is_safety_command());
    }
    assert!(!AppCommand::AnswerPrompt(Answer::Interaction {
        session_key: "session".into(),
        request_id: "request".into(),
        decision: "approve".into(),
    })
    .is_safety_command());
}

#[test]
fn a_dialog_that_was_closed_refuses() {
    let answer = Answer::from_dialog(dialogs::Answer::Extension {
        session_key: "session".into(),
        request_id: "request".into(),
        confirmed: false,
    });
    assert_eq!(
        answer,
        Answer::Extension {
            session_key: "session".into(),
            request_id: "request".into(),
            response: ExtensionResponse::Confirmed(false),
        }
    );
    assert!(AppCommand::AnswerPrompt(answer).is_safety_command());
}

#[test]
fn a_description_quotes_the_session() {
    let envelope = CommandEnvelope::system(7usize).with_context(None, Some("a \"b\"".into()));
    let text = envelope.describe("usize");
    assert!(text.contains("source: System, project_id: None"));
    assert!(text.contains(r#"session_key: Some("a \"b\"")"#));
    assert!(text.ends_with(r#"payload_type: "usize" }"#));
    assert_ne!(envelope.command_id(), CommandEnvelope::system(7usize).command_id());
}

#[test]
fn a_paste_is_described_by_its_kind() {
    let paste = ShellPaste::LongText("secret".into());
    assert_eq!(paste.describe(), "ShellPaste { kind: \"long_text\", .. }");
}
