use linkwalk::policy::Action;
use linkwalk::policy::Cli;

fn base_cli() -> Cli {
    Cli {
        symbolic: false,
        never_prompt: false,
        always_create_links: false,
        create_dirs: None,
        recurse: None,
        ask_to_rename_dirs: false,
        ask_to_rename_links: false,
    }
}

#[test]
fn defaults_ask_everywhere() {
    let cli = base_cli();
    assert_eq!(cli.create_links(), Action::Ask);
    assert_eq!(cli.create_dirs(), Action::Ask);
    assert_eq!(cli.recurse(), Action::Ask);
    assert!(cli.ask_to_rename_links());
    assert!(cli.ask_to_rename_dirs());
    assert!(!cli.symbolic());
}

#[test]
fn never_prompt_acts_everywhere_without_renames() {
    let mut cli = base_cli();
    cli.never_prompt = true;
    assert_eq!(cli.create_links(), Action::Always);
    assert_eq!(cli.create_dirs(), Action::Always);
    assert_eq!(cli.recurse(), Action::Always);
    assert!(!cli.ask_to_rename_links());
    assert!(!cli.ask_to_rename_dirs());
}

#[test]
fn explicit_modes_override_never_prompt() {
    let mut cli = base_cli();
    cli.never_prompt = true;
    cli.create_dirs = Some(Action::Never);
    cli.recurse = Some(Action::Ask);
    assert_eq!(cli.create_dirs(), Action::Never);
    assert_eq!(cli.recurse(), Action::Ask);
    // The blanket shortcut still decides what was not overridden.
    assert_eq!(cli.create_links(), Action::Always);
}

#[test]
fn rename_toggles_override_never_prompt() {
    let mut cli = base_cli();
    cli.never_prompt = true;
    cli.ask_to_rename_links = true;
    assert!(cli.ask_to_rename_links());
    assert!(!cli.ask_to_rename_dirs());
    let mut cli = base_cli();
    cli.never_prompt = true;
    cli.ask_to_rename_dirs = true;
    assert!(cli.ask_to_rename_dirs());
    assert!(!cli.ask_to_rename_links());
}

#[test]
fn always_create_links_alone() {
    let mut cli = base_cli();
    cli.always_create_links = true;
    assert_eq!(cli.create_links(), Action::Always);
    assert_eq!(cli.create_dirs(), Action::Ask);
    assert_eq!(cli.recurse(), Action::Ask);
    assert!(cli.ask_to_rename_links());
}

#[test]
fn resolved_policy_gathers_all_fields() {
    let mut cli = base_cli();
    cli.symbolic = true;
    cli.never_prompt = true;
    cli.recurse = Some(Action::Never);
    let p = cli.policy();
    assert_eq!(p.link_creation, Action::Always);
    assert_eq!(p.dir_creation, Action::Always);
    assert_eq!(p.recursion, Action::Never);
    assert!(!p.ask_rename_links);
    assert!(!p.ask_rename_dirs);
    assert!(p.use_symlink);
}
