use automode::update_action::{
    get_update_action, InstallContext, StandalonePlatform, UpdateAction,
};

#[test]
fn maps_install_context_to_update_action() {
    let native_release_dir = "/tmp/native-release".to_string();

    assert_eq!(
        UpdateAction::from_install_context(&InstallContext::Other),
        None
    );
    assert_eq!(
        UpdateAction::from_install_context(&InstallContext::Npm),
        Some(UpdateAction::NpmGlobalLatest)
    );
    assert_eq!(
        UpdateAction::from_install_context(&InstallContext::Bun),
        Some(UpdateAction::BunGlobalLatest)
    );
    assert_eq!(
        UpdateAction::from_install_context(&InstallContext::Brew),
        Some(UpdateAction::BrewUpgrade)
    );
    assert_eq!(
        UpdateAction::from_install_context(&InstallContext::Standalone {
            platform: StandalonePlatform::Unix,
            release_dir: native_release_dir.clone(),
            resources_dir: Some(format!("{native_release_dir}/codex-resources")),
        }),
        Some(UpdateAction::StandaloneUnix)
    );
    assert_eq!(
        UpdateAction::from_install_context(&InstallContext::Standalone {
            platform: StandalonePlatform::Windows,
            release_dir: native_release_dir.clone(),
            resources_dir: Some(format!("{native_release_dir}/codex-resources")),
        }),
        Some(UpdateAction::StandaloneWindows)
    );
    assert_eq!(
        get_update_action(&InstallContext::Brew),
        Some(UpdateAction::BrewUpgrade)
    );
}

#[test]
fn standalone_update_commands_rerun_latest_installer() {
    assert_eq!(
        UpdateAction::StandaloneUnix.command_args(),
        (
            "sh".to_string(),
            vec![
                "-c".to_string(),
                "curl -fsSL https://chatgpt.com/codex/install.sh | sh".to_string(),
            ],
        )
    );
    assert_eq!(
        UpdateAction::StandaloneWindows.command_args(),
        (
            "powershell".to_string(),
            vec![
                "-c".to_string(),
                "irm https://chatgpt.com/codex/install.ps1|iex".to_string(),
            ],
        )
    );
}

#[test]
fn brew_is_asked_to_upgrade() {
    assert_eq!(
        UpdateAction::BrewUpgrade.command_args(),
        (
            "brew".to_string(),
            vec!["upgrade".to_string(), "codex".to_string()],
        )
    );
}

#[test]
fn npm_and_bun_update_commands_can_target_verified_version() {
    assert_eq!(
        UpdateAction::NpmGlobalLatest
            .with_target_version("1.2.3")
            .command_args(),
        (
            "npm".to_string(),
            vec![
                "install".to_string(),
                "-g".to_string(),
                "@openai/codex@1.2.3".to_string(),
            ],
        )
    );
    assert_eq!(
        UpdateAction::BunGlobalLatest
            .with_target_version("1.2.3")
            .command_args(),
        (
            "bun".to_string(),
            vec![
                "install".to_string(),
                "-g".to_string(),
                "@openai/codex@1.2.3".to_string(),
            ],
        )
    );
}

#[test]
fn pinning_replaces_an_earlier_version() {
    assert_eq!(
        UpdateAction::NpmGlobalVersion("1".to_string()).with_target_version("2"),
        UpdateAction::NpmGlobalLatest.with_target_version("2")
    );
    assert_eq!(
        UpdateAction::BrewUpgrade.with_target_version("2"),
        UpdateAction::BrewUpgrade
    );
}

#[test]
fn commands_are_quoted_where_necessary() {
    assert_eq!(
        UpdateAction::NpmGlobalLatest.command_str(),
        "npm install -g @openai/codex@latest"
    );
    assert_eq!(
        UpdateAction::BrewUpgrade.command_str(),
        "brew upgrade codex"
    );
    assert_eq!(
        UpdateAction::StandaloneUnix.command_str(),
        "sh -c 'curl -fsSL https://chatgpt.com/codex/install.sh | sh'"
    );
    assert_eq!(
        UpdateAction::BunGlobalVersion("a b".to_string()).command_str(),
        "bun install -g '@openai/codex@a b'"
    );
}

#[test]
fn commands_that_cannot_be_quoted_are_shown_plainly() {
    assert_eq!(
        UpdateAction::NpmGlobalVersion("1\0 2".to_string()).command_str(),
        "npm install -g @openai/codex@1\0 2"
    );
    assert_eq!(
        UpdateAction::BrewUpgrade.command_str_from(None),
        "brew upgrade codex"
    );
    assert_eq!(
        UpdateAction::BrewUpgrade.command_str_from(Some("as it is".to_string())),
        "as it is"
    );
}
