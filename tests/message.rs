use kdb_commit::message::State;

fn state(branch: &str, args: &[&str]) -> State {
    State {
        branch: branch.to_string(),
        args: args.iter().map(|a| a.to_string()).collect(),
    }
}

#[test]
fn with_master_and_without_ticket_id() {
    let state = State {
        branch: "master".to_string(),
        args: vec!["foo".to_string(), "bar".to_string()],
    };
    assert!(!state.args_has_ticket_id());
    assert_eq!(state.message(), "foo bar".to_string());
}

#[test]
fn with_kdb_and_without_ticket_id() {
    let state = State {
        branch: "KDB-123".to_string(),
        args: vec!["foo".to_string(), "bar".to_string()],
    };

    assert!(!state.args_has_ticket_id());
    assert_eq!(state.message(), "KDB-123 foo bar".to_string());
}

#[test]
fn with_kdb_and_with_ticket_id() {
    let state = State {
        branch: "KDB-123".to_string(),
        args: vec!["KDB-456".to_string(), "bar".to_string()],
    };

    assert!(state.args_has_ticket_id());
    assert_eq!(state.message(), "KDB-456 bar".to_string());
}

#[test]
fn without_kdb_with_ticket_id() {
    let state = State {
        branch: "master".to_string(),
        args: vec!["KDB-456".to_string(), "foo".to_string(), "bar".to_string()],
    };

    assert!(state.args_has_ticket_id());
    assert_eq!(state.message(), "KDB-456 foo bar".to_string());
}

#[test]
fn without_kdb_without_ticket_id() {
    let state = State {
        branch: "master".to_string(),
        args: vec!["foo".to_string(), "bar".to_string()],
    };

    assert!(!state.args_has_ticket_id());
    assert_eq!(state.message(), "foo bar".to_string());
}

#[test]
fn branch_cut_at_first_slash() {
    let s = state("KDB-42/feature-x", &["did", "thing"]);
    assert_eq!(s.branch_ticket_id(), Some("KDB-42".to_string()));
    assert_eq!(s.message(), "KDB-42 did thing");
}

#[test]
fn branch_cut_at_first_of_several_slashes() {
    let s = state("KDB-7/a/b", &["x"]);
    assert_eq!(s.message(), "KDB-7 x");
}

#[test]
fn branch_without_slash_kept_whole() {
    let s = state("KDB-99-long-name", &["x", "y"]);
    assert_eq!(s.branch_ticket_id(), Some("KDB-99-long-name".to_string()));
    assert_eq!(s.message(), "KDB-99-long-name x y");
}

#[test]
fn branch_ticket_absent_for_other_branches() {
    assert_eq!(state("master", &["x"]).branch_ticket_id(), None);
    assert_eq!(state("feature/KDB-1", &["x"]).branch_ticket_id(), None);
    assert_eq!(state("KDB", &["x"]).branch_ticket_id(), None);
}

#[test]
fn prefix_match_is_case_sensitive() {
    let s = state("kdb-5", &["kdb-6", "x"]);
    assert!(!s.args_has_ticket_id());
    assert_eq!(s.branch_ticket_id(), None);
    assert_eq!(s.message(), "kdb-6 x");
}

#[test]
fn argument_ticket_wins_over_branch_ticket() {
    let s = state("KDB-1/topic", &["KDB-2", "fix"]);
    assert_eq!(s.message(), "KDB-2 fix");
}

#[test]
fn ticket_prefix_only_counts_in_first_word() {
    let s = state("KDB-3", &["fix", "KDB-4"]);
    assert!(!s.args_has_ticket_id());
    assert_eq!(s.message(), "KDB-3 fix KDB-4");
}

#[test]
fn empty_words_give_ticket_alone() {
    let s = state("KDB-8/x", &[]);
    assert!(!s.args_has_ticket_id());
    assert_eq!(s.message(), "KDB-8");
    assert_eq!(s.split_message(), vec!["KDB-8".to_string()]);
}

#[test]
fn empty_words_on_plain_branch_give_empty_message() {
    assert_eq!(state("main", &[]).message(), "");
}

#[test]
fn split_message_inserts_ticket_first() {
    let s = state("KDB-123", &["foo", "bar"]);
    assert_eq!(
        s.split_message(),
        vec!["KDB-123".to_string(), "foo".to_string(), "bar".to_string()]
    );
    let plain = state("master", &["foo", "bar"]);
    assert_eq!(plain.split_message(), vec!["foo".to_string(), "bar".to_string()]);
}

#[test]
fn composing_twice_gives_same_message() {
    let s = state("KDB-5/x", &["a", "b"]);
    let first = s.message();
    let second = s.message();
    assert_eq!(first, second);
    assert_eq!(state("KDB-5/x", &["a", "b"]).message(), first);
}

#[test]
fn non_ascii_words_joined() {
    let s = state("KDB-é/ü", &["größe", "ändern"]);
    assert_eq!(s.message(), "KDB-é größe ändern");
}
