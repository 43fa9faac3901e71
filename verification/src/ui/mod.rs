//! The pre-transaction confirmation, its tables, and the progress of a transaction.
//!
//! Build a [`ConfirmationTable`], pass per-column caps, then [`print_confirmation_table`].
//! A transaction is shown with [`install_confirmation_bundle`] or [`remove_confirmation_bundle`] and
//! [`print_install_confirmation_table`].

pub mod bundle;
pub mod notice;
pub mod preview;
pub mod progress;
pub mod render;
pub mod table;

pub use bundle::{install_confirmation_bundle, remove_confirmation_bundle};
pub use notice::{
    print_critical_pkg_warning, print_hook_phase_done, print_hook_phase_start, print_hook_step,
    print_warning_block,
};
pub use preview::{
    confirm_transaction, print_install_confirmation_summary, print_install_confirmation_table,
    tx_confirm_prompt,
};
pub use render::TransactionRenderController;
pub use table::{
    print_confirmation_table, ConfirmationRow, ConfirmationTable, InstallConfirmTotals,
    TxActionKind, TxConfirmOp, TxRowGroup, TxRowPaint, TxSourceKind,
};
