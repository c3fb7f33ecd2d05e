use linkwalk::fspath::FsPath;
use linkwalk::policy::Action;
use linkwalk::prompt::chosen_name;
use linkwalk::prompt::gate_decision;
use linkwalk::prompt::must_prompt;
use linkwalk::prompt::Confirmation;
use linkwalk::prompt::Decision;
use linkwalk::prompt::Reply;
use linkwalk::prompt::ReplyScript;
use linkwalk::walk::ShouldExit;

fn path(parts: &[&str]) -> FsPath {
    FsPath::new(parts.iter().map(|s| s.to_string()).collect())
}

#[test]
fn only_ask_prompts() {
    assert!(must_prompt(Action::Ask));
    assert!(!must_prompt(Action::Always));
    assert!(!must_prompt(Action::Never));
}

#[test]
fn gate_decisions_follow_mode_and_answer() {
    assert_eq!(gate_decision(Action::Always, Confirmation::Abort), Decision::Proceed);
    assert_eq!(gate_decision(Action::Never, Confirmation::Yes), Decision::Skip);
    assert_eq!(gate_decision(Action::Ask, Confirmation::Yes), Decision::Proceed);
    assert_eq!(gate_decision(Action::Ask, Confirmation::No), Decision::Skip);
    assert_eq!(gate_decision(Action::Ask, Confirmation::Abort), Decision::Abort);
}

#[test]
fn chosen_name_prefers_entered_text() {
    let original = "orig.txt".to_string();
    assert_eq!(chosen_name("new.txt".to_string(), &original), "new.txt");
    assert_eq!(chosen_name(String::new(), &original), "orig.txt");
}

#[test]
fn script_hands_out_replies_in_order() {
    let mut script = ReplyScript::new(vec![
        Reply::Confirm(Confirmation::Yes),
        Reply::Entered("name".to_string()),
        Reply::Confirm(Confirmation::No),
    ]);
    assert_eq!(script.next_confirmation(), Confirmation::Yes);
    assert_eq!(script.next_text(), Some("name".to_string()));
    assert_eq!(script.next_confirmation(), Confirmation::No);
    assert_eq!(script.pos, 3);
}

#[test]
fn exhausted_script_stays_put_and_aborts() {
    let mut script = ReplyScript::new(Vec::new());
    assert_eq!(script.next_confirmation(), Confirmation::Abort);
    assert_eq!(script.next_text(), None);
    assert_eq!(script.pos, 0);
}

#[test]
fn mismatched_replies_read_as_abort() {
    let mut script = ReplyScript::new(vec![
        Reply::Entered("stray".to_string()),
        Reply::Confirm(Confirmation::Yes),
        Reply::Cancelled,
    ]);
    assert_eq!(script.next_confirmation(), Confirmation::Abort);
    assert_eq!(script.next_text(), None);
    assert_eq!(script.next_text(), None);
    assert_eq!(script.pos, 3);
}

#[test]
fn should_exit_reads_the_outcome() {
    assert!(ShouldExit::Yes.should_exit());
    assert!(!ShouldExit::No.should_exit());
}

#[test]
fn join_appends_one_component() {
    let p = path(&["a", "b"]).join(&"c".to_string());
    assert_eq!(p, path(&["a", "b", "c"]));
    assert_eq!(p.len(), 3);
}

#[test]
fn file_name_is_the_last_component() {
    assert_eq!(path(&["a", "b.txt"]).file_name(), Some(&"b.txt".to_string()));
    assert_eq!(path(&[]).file_name(), None);
}

#[test]
fn set_file_name_replaces_the_last_component() {
    let mut p = path(&["target", "bar.txt"]);
    p.set_file_name("foo.txt".to_string());
    assert_eq!(p, path(&["target", "foo.txt"]));
    let q = path(&["target", "bar.txt"]).with_file_name("foo.txt".to_string());
    assert_eq!(q, path(&["target", "foo.txt"]));
}

#[test]
fn duplicate_copies_the_components() {
    let p = path(&["x", "y"]);
    let q = p.duplicate();
    assert_eq!(p, q);
}
