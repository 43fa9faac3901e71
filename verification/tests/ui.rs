use bah::config::Config;
use bah::ui::progress::{render_progress_bar, PROGRESS_BAR_WIDTH};
use bah::ui::{print_confirmation_table, tx_confirm_prompt, ConfirmationTable, TxConfirmOp};

#[test]
fn skips_mismatched_columns() {
    let cfg = Config::default();
    let mut t = ConfirmationTable::new("Test");
    t.headers = vec!["A".into(), "B".into()];
    t.push_row(vec!["only_one".into()]);
    assert_eq!(print_confirmation_table(&cfg, &t, &[8, 8]), "");
}

#[test]
fn prints_small_table() {
    let cfg = Config::default();
    let mut t = ConfirmationTable::new("Proceed with installation?");
    t.headers = vec![
        "Package".into(),
        "Version".into(),
        "Repo".into(),
        "Notes".into(),
    ];
    t.push_row(vec![
        "nano".into(),
        "8.4-1 → 8.5-1".into(),
        "core".into(),
        "minor".into(),
    ]);
    let text = print_confirmation_table(&cfg, &t, &[12, 20, 8, 64]);
    let lines: Vec<&str> = text.lines().collect();
    assert_eq!(lines[0], ":: Proceed with installation?");
    assert_eq!(lines[1].trim_end(), "Package  Version        Repo  Notes");
    assert_eq!(lines[2], "nano     8.4-1 → 8.5-1  core  minor");
    assert_eq!(lines.len(), 3);
}

#[test]
fn transaction_prompts_match_operation() {
    assert_eq!(
        tx_confirm_prompt(TxConfirmOp::Install),
        "Proceed with installation?"
    );
    assert_eq!(
        tx_confirm_prompt(TxConfirmOp::Update),
        "Proceed with update?"
    );
    assert_eq!(
        tx_confirm_prompt(TxConfirmOp::Remove),
        "Proceed with removal?"
    );
}

#[test]
fn progress_bar_body_never_exceeds_fixed_width() {
    for percent in [0, 1, 50, 67, 99, 100, 250] {
        let bar = render_progress_bar(percent, PROGRESS_BAR_WIDTH);
        let body = bar.trim_start_matches('[').trim_end_matches(']');
        assert_eq!(body.chars().count(), PROGRESS_BAR_WIDTH);
    }
}
