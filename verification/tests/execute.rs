use verb_engine::state::AppCommandResult;
use verb_engine::state::AppState;
use verb_engine::state::Launchable;
use verb_engine::state::TreeOptions;
use verb_engine::state::TreeView;
use verb_engine::verbs::Verb;
use verb_engine::verbs::VerbStore;

fn state_with(path: &str, show_hidden: bool) -> AppState {
    AppState {
        tree: TreeView { selected_path: String::from(path) },
        filtered_tree: None,
        options: TreeOptions { show_hidden },
    }
}

fn verb(pattern: &str) -> Verb {
    Verb { name: String::from("test"), exec_pattern: String::from(pattern) }
}

#[test]
fn back_pops_state() {
    let res = verb(":back").execute(&state_with("/tmp/x", false));
    assert_eq!(res, AppCommandResult::PopState);
}

#[test]
fn focus_returns_selected_path_as_new_root() {
    let res = verb(":focus").execute(&state_with("/tmp/x", false));
    assert_eq!(res, AppCommandResult::NewRoot(String::from("/tmp/x")));
}

#[test]
fn toggle_hidden_flips_the_flag() {
    let res = verb(":toggle_hidden").execute(&state_with("/tmp/x", false));
    assert_eq!(res, AppCommandResult::NewOptions(TreeOptions { show_hidden: true }));
    let res = verb(":toggle_hidden").execute(&state_with("/tmp/x", true));
    assert_eq!(res, AppCommandResult::NewOptions(TreeOptions { show_hidden: false }));
}

#[test]
fn toggle_hidden_twice_restores_options_and_leaves_input_unchanged() {
    let state = state_with("/tmp/x", false);
    let first = verb(":toggle_hidden").execute(&state);
    // copy-on-write: the state passed in is observably unchanged
    assert_eq!(state.options, TreeOptions { show_hidden: false });
    let new_options = match first {
        AppCommandResult::NewOptions(options) => options,
        other => panic!("expected NewOptions, got {:?}", other),
    };
    let mut second_state = state_with("/tmp/x", false);
    second_state.options = new_options;
    let second = verb(":toggle_hidden").execute(&second_state);
    assert_eq!(second, AppCommandResult::NewOptions(TreeOptions { show_hidden: false }));
}

#[test]
fn open_launches_default_handler_for_selected_path() {
    let res = verb(":open").execute(&state_with("/tmp/x", false));
    assert_eq!(res, AppCommandResult::Launch(Launchable::Opener(String::from("/tmp/x"))));
}

#[test]
fn parent_replaces_root_with_parent_directory() {
    let res = verb(":parent").execute(&state_with("/a/b", false));
    assert_eq!(res, AppCommandResult::NewRoot(String::from("/a")));
}

#[test]
fn parent_of_top_level_entry_is_the_filesystem_root() {
    let res = verb(":parent").execute(&state_with("/a", false));
    assert_eq!(res, AppCommandResult::NewRoot(String::from("/")));
}

#[test]
fn quit_ends_the_session() {
    let res = verb(":quit").execute(&state_with("/tmp/x", false));
    assert_eq!(res, AppCommandResult::Quit);
}

#[test]
fn filtered_tree_selection_takes_precedence() {
    let state = AppState {
        tree: TreeView { selected_path: String::from("/whole/tree") },
        filtered_tree: Some(TreeView { selected_path: String::from("/filtered/pick") }),
        options: TreeOptions { show_hidden: false },
    };
    let res = verb(":focus").execute(&state);
    assert_eq!(res, AppCommandResult::NewRoot(String::from("/filtered/pick")));
}

#[test]
fn template_pattern_launches_substituted_command() {
    let res = verb("edit {file}").execute(&state_with("/tmp/x.txt", false));
    assert_eq!(res, AppCommandResult::Launch(Launchable::Command(String::from("edit /tmp/x.txt"))));
}

#[test]
fn open_verb_from_registry_end_to_end() {
    let mut store = VerbStore::new();
    store.insert(
        String::from("o"),
        Verb { name: String::from("open"), exec_pattern: String::from(":open") },
    );
    let found = store.get("o").expect("verb bound to key o");
    let res = found.execute(&state_with("/tmp/x", false));
    assert_eq!(res, AppCommandResult::Launch(Launchable::Opener(String::from("/tmp/x"))));
}

#[test]
fn edit_verb_from_registry_end_to_end() {
    let mut store = VerbStore::new();
    store.insert(
        String::from("e"),
        Verb { name: String::from("edit"), exec_pattern: String::from("edit {file}") },
    );
    let found = store.get("e").expect("verb bound to key e");
    let res = found.execute(&state_with("/tmp/x.txt", false));
    assert_eq!(res, AppCommandResult::Launch(Launchable::Command(String::from("edit /tmp/x.txt"))));
}
