use rugit::command::Menu;
use rugit::keymap::{KeyCode, KeyModifiers, KeyPress};
use rugit::ui::menus::{
    cherry_pick, cherry_pick_in_progress, commit, log, menu_def, merge, merge_in_progress, push,
    rebase, rebase_in_progress, revert, revert_in_progress,
};
use rugit::ui::transient::{
    resolve_var, GroupDef, Item, TransientAction, TransientDef, TransientResult, TransientState,
};

fn key(c: char) -> KeyPress {
    KeyPress::new(KeyCode::Char(c), KeyModifiers::none())
}

#[test]
fn switch_key_is_a_two_key_sequence() {
    let mut st = TransientState::new(commit());
    assert_eq!(st.on_key(&key('-')), TransientResult::Consumed);
    assert_eq!(st.on_key(&key('a')), TransientResult::Consumed);
    assert!(st.is_enabled("--all"));
    st.on_key(&key('-'));
    st.on_key(&key('a'));
    assert!(st.enabled.is_empty());
}

#[test]
fn action_collects_enabled_flags() {
    let mut st = TransientState::new(commit());
    st.on_key(&key('-'));
    st.on_key(&key('s'));
    match st.on_key(&key('c')) {
        TransientResult::Invoke(TransientAction::Commit, args) => {
            assert_eq!(args, vec!["--signoff"]);
        }
        other => panic!("unexpected: {other:?}"),
    }
}

#[test]
fn value_arg_prompts_then_collects_flag_with_value() {
    let mut st = TransientState::new(log());
    assert_eq!(st.on_key(&key('-')), TransientResult::Consumed);
    assert_eq!(
        st.on_key(&key('n')),
        TransientResult::Prompt {
            flag: "--max-count=",
            desc: "Limit number of commits",
        }
    );
    st.set_value("--max-count=", "50".into());
    st.on_key(&key('-'));
    st.on_key(&key('m'));
    match st.on_key(&key('l')) {
        TransientResult::Invoke(TransientAction::LogCurrent, args) => {
            assert_eq!(args, vec!["--no-merges", "--max-count=50"]);
        }
        other => panic!("unexpected: {other:?}"),
    }
}

#[test]
fn empty_value_clears_the_arg() {
    let mut st = TransientState::new(log());
    st.set_value("--author=", "ada".into());
    assert_eq!(st.args(), vec!["--author=ada"]);
    st.set_value("--author=", String::new());
    assert!(st.args().is_empty());
}

#[test]
fn switch_and_action_sharing_a_letter_stay_distinct() {
    let mut st = TransientState::new(merge());
    st.on_key(&key('-'));
    st.on_key(&key('n'));
    assert!(st.is_enabled("--no-ff"));
    match st.on_key(&key('n')) {
        TransientResult::Invoke(TransientAction::MergeNoCommit, args) => {
            assert_eq!(args, vec!["--no-ff"]);
        }
        other => panic!("unexpected: {other:?}"),
    }
}

#[test]
fn in_progress_merge_menu_only_finishes_or_aborts() {
    let mut st = TransientState::new(merge_in_progress());
    assert_eq!(st.on_key(&key('m')), TransientResult::Invoke(TransientAction::Commit, vec![]));
    assert_eq!(st.on_key(&key('a')), TransientResult::Invoke(TransientAction::MergeAbort, vec![]));
    assert_eq!(st.on_key(&key('s')), TransientResult::Unbound);
}

#[test]
fn ff_only_and_no_ff_are_mutually_exclusive_like_magit() {
    let mut st = TransientState::new(merge());
    st.on_key(&key('-'));
    st.on_key(&key('f'));
    assert!(st.is_enabled("--ff-only"));
    st.on_key(&key('-'));
    st.on_key(&key('n'));
    assert!(st.is_enabled("--no-ff"));
    assert!(!st.is_enabled("--ff-only"));
}

#[test]
fn rebase_menu_defaults_to_autostash_like_magit() {
    let mut st = TransientState::new(rebase());
    match st.on_key(&key('u')) {
        TransientResult::Invoke(TransientAction::RebaseUpstream, args) => {
            assert_eq!(args, vec!["--autostash"]);
        }
        other => panic!("unexpected: {other:?}"),
    }
}

#[test]
fn rebase_action_collects_enabled_flags() {
    let mut st = TransientState::new(rebase());
    st.on_key(&key('-'));
    st.on_key(&key('A'));
    st.on_key(&key('-'));
    st.on_key(&key('i'));
    match st.on_key(&key('u')) {
        TransientResult::Invoke(TransientAction::RebaseUpstream, args) => {
            assert_eq!(args, vec!["--interactive"]);
        }
        other => panic!("unexpected: {other:?}"),
    }
}

#[test]
fn in_progress_rebase_menu_only_manages_the_current_rebase() {
    let mut st = TransientState::new(rebase_in_progress());
    assert_eq!(st.on_key(&key('r')), TransientResult::Invoke(TransientAction::RebaseContinue, vec![]));
    assert_eq!(st.on_key(&key('a')), TransientResult::Invoke(TransientAction::RebaseAbort, vec![]));
    assert_eq!(st.on_key(&key('u')), TransientResult::Unbound);
}

#[test]
fn cherry_pick_menu_defaults_to_ff() {
    let mut st = TransientState::new(cherry_pick());
    match st.on_key(&key('A')) {
        TransientResult::Invoke(TransientAction::CherryPick, args) => {
            assert_eq!(args, vec!["--ff"]);
        }
        other => panic!("unexpected: {other:?}"),
    }
}

#[test]
fn cherry_pick_ff_and_record_origin_are_mutually_exclusive() {
    let mut st = TransientState::new(cherry_pick());
    st.on_key(&key('-'));
    st.on_key(&key('x'));
    match st.on_key(&key('A')) {
        TransientResult::Invoke(TransientAction::CherryPick, args) => {
            assert_eq!(args, vec!["-x"]);
        }
        other => panic!("unexpected: {other:?}"),
    }
}

#[test]
fn in_progress_cherry_pick_menu_only_manages_the_sequence() {
    let mut st = TransientState::new(cherry_pick_in_progress());
    assert_eq!(
        st.on_key(&key('A')),
        TransientResult::Invoke(TransientAction::CherryPickContinue, vec![])
    );
    assert_eq!(st.on_key(&key('a')), TransientResult::Invoke(TransientAction::CherryPickAbort, vec![]));
    assert_eq!(st.on_key(&key('e')), TransientResult::Unbound);
}

#[test]
fn revert_menu_defaults_to_edit() {
    let mut st = TransientState::new(revert());
    match st.on_key(&key('V')) {
        TransientResult::Invoke(TransientAction::Revert, args) => {
            assert_eq!(args, vec!["--edit"]);
        }
        other => panic!("unexpected: {other:?}"),
    }
}

#[test]
fn in_progress_revert_menu_only_manages_the_sequence() {
    let mut st = TransientState::new(revert_in_progress());
    assert_eq!(st.on_key(&key('V')), TransientResult::Invoke(TransientAction::RevertContinue, vec![]));
    assert_eq!(st.on_key(&key('a')), TransientResult::Invoke(TransientAction::RevertAbort, vec![]));
    assert_eq!(st.on_key(&key('v')), TransientResult::Unbound);
}

fn variable_def(key: &'static str, var: &'static str) -> TransientDef {
    TransientDef {
        title: "T",
        groups: vec![GroupDef { title: "Variables", items: vec![Item::Variable { key, var }] }],
        defaults: vec![],
        incompatible: vec![],
    }
}

#[test]
fn variables_hide_without_scope_and_edit_with_one() {
    let mut st = TransientState::new(variable_def("u", "remote.{}.url"));
    assert_eq!(st.on_key(&key('u')), TransientResult::Unbound);
    assert!(st.render_lines().is_empty());
    st.scope = Some("origin".into());
    assert_eq!(st.on_key(&key('u')), TransientResult::EditVariable { var: "remote.{}.url" });
    assert!(!st.render_lines().is_empty());
}

#[test]
fn choice_variable_renders_all_choices() {
    let mut st = TransientState::new(variable_def("r", "branch.{}.rebase"));
    st.scope = Some("main".into());
    st.set_var_choices("branch.{}.rebase", vec!["true".into(), "false".into()]);
    st.set_var_fallback("branch.{}.rebase", "default:false".into());
    st.set_variable("branch.{}.rebase", Some("true".into()));
    let lines = st.render_lines();
    let text: String = lines[1].iter().map(|s| s.text.as_str()).collect();
    assert!(text.contains("[true|false|default:false]"), "got {text:?}");
}

#[test]
fn resolve_var_substitutes_the_scope() {
    assert_eq!(resolve_var("remote.{}.url", "origin"), "remote.origin.url");
    assert_eq!(resolve_var("pull.rebase", "main"), "pull.rebase");
}

#[test]
fn esc_cancels() {
    let mut st = TransientState::new(push());
    let esc = KeyPress::new(KeyCode::Esc, KeyModifiers::none());
    assert_eq!(st.on_key(&esc), TransientResult::Cancel);
}

#[test]
fn unknown_key_is_unbound() {
    let mut st = TransientState::new(push());
    assert_eq!(st.on_key(&key('z')), TransientResult::Unbound);
    assert!(st.pending.is_empty());
}

#[test]
fn esc_with_a_pending_prefix_only_clears_it() {
    let mut st = TransientState::new(push());
    st.on_key(&key('-'));
    assert_eq!(st.pending, "-");
    let cg = KeyPress::new(KeyCode::Char('g'), KeyModifiers::control());
    assert_eq!(st.on_key(&cg), TransientResult::Consumed);
    assert!(st.pending.is_empty());
    assert_eq!(st.on_key(&cg), TransientResult::Cancel);
}

#[test]
fn set_variable_records_and_unsets() {
    let mut st = TransientState::new(push());
    st.set_variable("pull.rebase", Some("true".into()));
    assert_eq!(st.variables, vec![("pull.rebase", "true".to_string())]);
    st.set_variable("pull.rebase", None);
    assert!(st.variables.is_empty());
}

#[test]
fn menu_def_has_a_definition_for_each_bound_menu() {
    assert_eq!(menu_def(Menu::Commit).title, "Commit");
    assert_eq!(menu_def(Menu::Log).title, "Log");
    assert_eq!(menu_def(Menu::Submodule).title, "Submodule");
    assert_eq!(menu_def(Menu::Worktree).title, "Worktree");
}

#[test]
fn item_keys() {
    let it = Item::Action { key: "c", desc: "Commit", action: TransientAction::Commit };
    assert_eq!(it.key(), "c");
}

#[test]
fn selecting_an_enabled_switch_twice_restores_the_menu() {
    let mut st = TransientState::new(commit());
    st.on_key(&key('-'));
    st.on_key(&key('a'));
    st.on_key(&key('-'));
    st.on_key(&key('s'));
    let before = st.enabled.clone();
    for _ in 0..2 {
        st.on_key(&key('-'));
        st.on_key(&key('a'));
    }
    assert_eq!(st.enabled, before);
}
