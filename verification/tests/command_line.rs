use automode::cli::{Color, ExecSharedCliOptions, ResumeArgs, ResumeArgsRaw, SharedCliOptions};

fn raw(session_id: Option<&str>, last: bool, prompt: Option<&str>) -> ResumeArgsRaw {
    ResumeArgsRaw {
        session_id: session_id.map(str::to_string),
        last,
        all: true,
        images: vec!["a.png".to_string()],
        prompt: prompt.map(str::to_string),
    }
}

#[test]
fn the_last_session_takes_a_prompt() {
    let args = ResumeArgs::from(raw(Some("go on"), true, None));
    assert_eq!(args.session_id, None);
    assert_eq!(args.prompt.as_deref(), Some("go on"));
    assert!(args.last);
    assert!(args.all);
    assert_eq!(args.images, vec!["a.png".to_string()]);
}

#[test]
fn a_session_and_a_prompt_stay_what_they_are() {
    let args = ResumeArgs::from(raw(Some("id"), false, None));
    assert_eq!(args.session_id.as_deref(), Some("id"));
    assert_eq!(args.prompt, None);
    let args = ResumeArgs::from(raw(Some("id"), true, Some("go on")));
    assert_eq!(args.session_id.as_deref(), Some("id"));
    assert_eq!(args.prompt.as_deref(), Some("go on"));
}

#[test]
fn options_start_out_empty() {
    assert_eq!(Color::default(), Color::Auto);
    let options = ExecSharedCliOptions::default();
    assert!(!options.oss);
    assert_eq!(options.into_inner(), SharedCliOptions::default());
}
