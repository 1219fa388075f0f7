//! The buttons a dialog draws for itself.
//!
//! Every dialog goes through this module, so the footer is one decision made once: a
//! dialog always has something to click, and a question that cannot be dismissed by its
//! backdrop or its close cross can still be answered with no.

use vstd::prelude::*;

verus! {

/// How a button looks.
#[derive(Clone, Copy, PartialEq, Eq, Structural, Debug)]
pub enum ButtonStyle {
    Outline,
    Primary,
    Danger,
}

/// What a click does.
#[derive(Clone, Copy, PartialEq, Eq, Structural, Debug)]
pub enum ButtonAction {
    /// Closes the dialog.
    Close,
    /// Runs the dialog's action, and closes the dialog if the action says so.
    Run,
}

/// A button of a dialog's footer.
#[derive(Clone, Copy, Debug)]
pub struct FooterButton {
    pub id: &'static str,
    pub label: &'static str,
    pub style: ButtonStyle,
    pub action: ButtonAction,
}

/// A dialog, as it is drawn. Widths are in pixels.
#[derive(Debug)]
pub struct Dialog {
    pub title: String,
    pub width: u32,
    /// Whether a click on the backdrop closes it.
    pub overlay_closable: bool,
    /// Whether it has a close cross.
    pub close_button: bool,
    pub footer: Vec<FooterButton>,
    /// Whether the Enter key runs the dialog's action.
    pub enter_runs: bool,
}

/// The footer of a dialog that asks: cancel first, then confirm.
pub open spec fn question(
    confirm: &'static str,
    style: ButtonStyle,
    cancel: &'static str,
) -> Seq<FooterButton> {
    seq![
        FooterButton {
            id: "cancel",
            label: cancel,
            style: ButtonStyle::Outline,
            action: ButtonAction::Close,
        },
        FooterButton { id: "dialog-confirm", label: confirm, style, action: ButtonAction::Run },
    ]
}

/// The footer of a dialog that only shows something.
pub open spec fn notice(label: &'static str) -> Seq<FooterButton> {
    seq![
        FooterButton {
            id: "dismiss",
            label,
            style: ButtonStyle::Outline,
            action: ButtonAction::Close,
        },
    ]
}

impl Dialog {
    /// A dialog without buttons.
    pub fn new(title: String, width: u32) -> (r: Dialog)
        ensures
            r.title@ == title@,
            r.width == width,
            r.overlay_closable,
            r.close_button,
            r.footer@ == Seq::<FooterButton>::empty(),
            !r.enter_runs,
    {
        Dialog {
            title,
            width,
            overlay_closable: true,
            close_button: true,
            footer: Vec::new(),
            enter_runs: false,
        }
    }

    /// Neither the backdrop nor a close cross dismisses it.
    pub fn must_answer(self) -> (r: Dialog)
        ensures
            r == (Dialog { overlay_closable: false, close_button: false, ..self }),
    {
        Dialog {
            title: self.title,
            width: self.width,
            overlay_closable: false,
            close_button: false,
            footer: self.footer,
            enter_runs: self.enter_runs,
        }
    }

    /// A confirm button and a cancel button. Enter runs the same action.
    pub fn confirm_cancel(self, confirm: &'static str, cancel: &'static str) -> (r: Dialog)
        ensures
            r == (Dialog { footer: r.footer, enter_runs: true, ..self }),
            r.footer@ == question(confirm, ButtonStyle::Primary, cancel),
    {
        self.with_footer(confirm, ButtonStyle::Primary, cancel)
    }

    /// The same, with the confirm button in red: for an action that cannot be undone.
    pub fn danger_cancel(self, confirm: &'static str, cancel: &'static str) -> (r: Dialog)
        ensures
            r == (Dialog { footer: r.footer, enter_runs: true, ..self }),
            r.footer@ == question(confirm, ButtonStyle::Danger, cancel),
    {
        self.with_footer(confirm, ButtonStyle::Danger, cancel)
    }

    fn with_footer(self, confirm: &'static str, style: ButtonStyle, cancel: &'static str)
        -> (r: Dialog)
        ensures
            r == (Dialog { footer: r.footer, enter_runs: true, ..self }),
            r.footer@ == question(confirm, style, cancel),
    {
        let footer: Vec<FooterButton> = vec![
            FooterButton {
                id: "cancel",
                label: cancel,
                style: ButtonStyle::Outline,
                action: ButtonAction::Close,
            },
            FooterButton {
                id: "dialog-confirm",
                label: confirm,
                style,
                action: ButtonAction::Run,
            },
        ];
        assert(footer@ =~= question(confirm, style, cancel));
        Dialog {
            title: self.title,
            width: self.width,
            overlay_closable: self.overlay_closable,
            close_button: self.close_button,
            footer,
            enter_runs: true,
        }
    }

    /// One button, which closes the dialog. For a dialog that only shows something.
    pub fn dismiss(self, label: &'static str) -> (r: Dialog)
        ensures
            r == (Dialog { footer: r.footer, ..self }),
            r.footer@ == notice(label),
    {
        let footer: Vec<FooterButton> = vec![
            FooterButton {
                id: "dismiss",
                label,
                style: ButtonStyle::Outline,
                action: ButtonAction::Close,
            },
        ];
        assert(footer@ =~= notice(label));
        Dialog {
            title: self.title,
            width: self.width,
            overlay_closable: self.overlay_closable,
            close_button: self.close_button,
            footer,
            enter_runs: self.enter_runs,
        }
    }
}

/// Whether a dialog closes once one of its buttons was clicked. `accepted` is what the
/// dialog's action returns where the button runs it: a refused input keeps the dialog
/// open, with whatever was typed in it.
pub fn closes(action: ButtonAction, accepted: bool) -> (r: bool)
    ensures
        r == (action == ButtonAction::Close || accepted),
{
    action == ButtonAction::Close || accepted
}

/// Whatever a dialog asks or shows, it has a button that closes it without running its
/// action.
pub proof fn law_every_footer_has_a_way_out(
    confirm: &'static str,
    style: ButtonStyle,
    cancel: &'static str,
)
    ensures
        question(confirm, style, cancel)[0].action == ButtonAction::Close,
        notice(cancel)[0].action == ButtonAction::Close,
{
}

/// A question has exactly two buttons: the first closes the dialog and nothing more, the
/// second runs its action and looks as it is asked to. A notice has one button, which closes.
pub proof fn law_footers(confirm: &'static str, style: ButtonStyle, cancel: &'static str)
    ensures
        question(confirm, style, cancel).len() == 2,
        question(confirm, style, cancel)[0].id@ == "cancel"@,
        question(confirm, style, cancel)[0].label == cancel,
        question(confirm, style, cancel)[0].style is Outline,
        question(confirm, style, cancel)[0].action is Close,
        question(confirm, style, cancel)[1].id@ == "dialog-confirm"@,
        question(confirm, style, cancel)[1].label == confirm,
        question(confirm, style, cancel)[1].style == style,
        question(confirm, style, cancel)[1].action is Run,
        notice(cancel).len() == 1,
        notice(cancel)[0].id@ == "dismiss"@,
        notice(cancel)[0].label == cancel,
        notice(cancel)[0].style is Outline,
        notice(cancel)[0].action is Close,
{
}

} // verus!
