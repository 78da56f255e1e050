//! Dialogs: what a dialog is built with (its pause, texts and buttons),
//! stacking of open dialogs (which one is on top, how a click raises one), and
//! when the shared dark background shows.
use vstd::prelude::*;

verus! {

/// A dialog as its builder describes it; texts are message keys.
#[derive(Debug, Clone, PartialEq, Eq)]
pub struct Dialog {
    /// Whether the game clock is held paused while the dialog is open.
    pub pause: bool,
    pub title: Option<String>,
    pub text_body: Option<String>,
    /// The label of the confirm button; `None` means the default label.
    pub confirm_label: Option<String>,
    /// The tooltip of the confirm button while it is disabled; `None` means
    /// the button is enabled.
    pub confirm_disabled: Option<String>,
    /// `None`: no cancel button; `Some(None)`: a cancel button with the
    /// default label; `Some(Some(l))`: a cancel button labelled `l`.
    pub cancel_label: Option<Option<String>>,
}

impl Dialog {
    /// A dialog with no title, no body, no pause, the default confirm button
    /// and no cancel button.
    pub fn new() -> (r: Self)
        ensures
            !r.pause,
            r.title is None,
            r.text_body is None,
            r.confirm_label is None,
            r.confirm_disabled is None,
            r.cancel_label is None,
    {
        Dialog {
            pause: false,
            title: None,
            text_body: None,
            confirm_label: None,
            confirm_disabled: None,
            cancel_label: None,
        }
    }

    /// The dialog holds the game paused while it is open.
    pub fn with_pause(self) -> (r: Self)
        ensures
            r == (Dialog { pause: true, ..self }),
    {
        let mut d = self;
        d.pause = true;
        d
    }

    /// The dialog's confirm button is disabled, with a tooltip saying why.
    pub fn with_confirm_disabled(self, disabled_tooltip: String) -> (r: Self)
        ensures
            r == (Dialog { confirm_disabled: Some(disabled_tooltip), ..self }),
    {
        let mut d = self;
        d.confirm_disabled = Some(disabled_tooltip);
        d
    }

    /// The dialog's title.
    pub fn with_title(self, title: String) -> (r: Self)
        ensures
            r == (Dialog { title: Some(title), ..self }),
    {
        let mut d = self;
        d.title = Some(title);
        d
    }

    /// The dialog's body text.
    pub fn with_text_body(self, text: String) -> (r: Self)
        ensures
            r == (Dialog { text_body: Some(text), ..self }),
    {
        let mut d = self;
        d.text_body = Some(text);
        d
    }

    /// The label of the confirm button.
    pub fn with_confirm_label(self, label: String) -> (r: Self)
        ensures
            r == (Dialog { confirm_label: Some(label), ..self }),
    {
        let mut d = self;
        d.confirm_label = Some(label);
        d
    }

    /// A cancel button with the default label.
    pub fn with_cancel(self) -> (r: Self)
        ensures
            r == (Dialog { cancel_label: Some(None), ..self }),
    {
        let mut d = self;
        d.cancel_label = Some(None);
        d
    }

    /// A cancel button with the given label.
    pub fn with_cancel_label(self, label: String) -> (r: Self)
        ensures
            r == (Dialog { cancel_label: Some(Some(label)), ..self }),
    {
        let mut d = self;
        d.cancel_label = Some(Some(label));
        d
    }

    /// The label shown on the confirm button: the one given, or
    /// `dialog-confirm`.
    pub fn confirm_button_label(&self) -> (r: String)
        ensures
            r@ == match self.confirm_label {
                Some(l) => l@,
                None => "dialog-confirm"@,
            },
    {
        match &self.confirm_label {
            Some(l) => l.clone(),
            None => String::from_str("dialog-confirm"),
        }
    }

    /// The label shown on the cancel button, if the dialog has one: the one
    /// given, or `dialog-cancel`.
    pub fn cancel_button_label(&self) -> (r: Option<String>)
        ensures
            match self.cancel_label {
                None => r is None,
                Some(None) => r matches Some(l) && l@ == "dialog-cancel"@,
                Some(Some(l)) => r matches Some(m) && m@ == l@,
            },
    {
        match &self.cancel_label {
            None => None,
            Some(None) => Some(String::from_str("dialog-cancel")),
            Some(Some(l)) => Some(l.clone()),
        }
    }
}

/// The z-indices of `n` dialogs are exactly 0, 1, ..., n - 1, each used once.
pub open spec fn is_stacking(z: Seq<i32>) -> bool {
    &&& forall|i: int| 0 <= i < z.len() ==> 0 <= #[trigger] z[i] < z.len()
    &&& forall|i: int, j: int| 0 <= i < j < z.len() ==> z[i] != z[j]
}

/// The z-index of a new dialog: it goes on top of the `open_dialogs` already open.
pub fn new_dialog_z_index(open_dialogs: usize) -> (r: i32)
    requires
        open_dialogs <= i32::MAX,
    ensures
        r == open_dialogs,
{
    open_dialogs as i32
}

/// The z-index of each dialog after `pressed` was clicked: the clicked dialog
/// goes on top and the dialogs above it move down one place.
pub open spec fn raised(z: Seq<i32>, pressed: int) -> Seq<i32> {
    let current = z[pressed];
    let top = z.len() - 1;
    if current == top {
        z
    } else {
        Seq::new(
            z.len(),
            |i: int|
                if i == pressed {
                    top as i32
                } else if z[i] > current {
                    (z[i] - 1) as i32
                } else {
                    z[i]
                },
        )
    }
}

/// A click on a dialog raises it to the top.
pub fn raise_dialog(z_indices: &mut Vec<i32>, pressed: usize)
    requires
        pressed < old(z_indices).len(),
        old(z_indices).len() - 1 <= i32::MAX,
    ensures
        final(z_indices)@ == raised(old(z_indices)@, pressed as int),
{
    let current = z_indices[pressed];
    let top: i32 = (z_indices.len() - 1) as i32;
    if current != top {
        let ghost z0 = z_indices@;
        let mut i: usize = 0;
        while i < z_indices.len()
            invariant
                z_indices.len() == z0.len(),
                pressed < z0.len(),
                current == z0[pressed as int],
                i <= z_indices.len(),
                forall|j: int|
                    0 <= j < i ==> #[trigger] z_indices@[j] == if z0[j] > current {
                        (z0[j] - 1) as i32
                    } else {
                        z0[j]
                    },
                forall|j: int| i <= j < z0.len() ==> #[trigger] z_indices@[j] == z0[j],
            decreases z_indices.len() - i,
        {
            if z_indices[i] > current {
                let v = z_indices[i] - 1;
                z_indices.set(i, v);
            }
            i += 1;
        }
        z_indices.set(pressed, top);
        assert(z_indices@ =~= raised(z0, pressed as int));
    }
}

/// Raising a dialog keeps the z-indices a stacking, puts the clicked dialog on
/// top, and keeps the order of all the others.
pub proof fn lemma_raise_keeps_stacking(z: Seq<i32>, pressed: int)
    requires
        is_stacking(z),
        0 <= pressed < z.len(),
        z.len() - 1 <= i32::MAX,
    ensures
        is_stacking(raised(z, pressed)),
        raised(z, pressed)[pressed] == z.len() - 1,
        forall|i: int, j: int|
            0 <= i < z.len() && 0 <= j < z.len() && i != pressed && j != pressed ==> (z[i] < z[j]
                <==> raised(z, pressed)[i] < raised(z, pressed)[j]),
{
    let r = raised(z, pressed);
    let top = z.len() - 1;
    let c = z[pressed];
    if c != top {
        assert forall|i: int| 0 <= i < z.len() implies #[trigger] r[i] == if i == pressed {
            top
        } else if z[i] > c {
            z[i] - 1
        } else {
            z[i] as int
        } by {
            assert(0 <= z[i] < z.len());
        }
        assert forall|i: int| 0 <= i < r.len() implies 0 <= #[trigger] r[i] < r.len() by {
            assert(0 <= z[i] < z.len());
        }
        assert forall|i: int, j: int| 0 <= i < j < r.len() implies r[i] != r[j] by {
            assert(0 <= z[i] < z.len());
            assert(0 <= z[j] < z.len());
            if i == pressed {
                assert(z[j] != c);
            } else if j == pressed {
                assert(z[i] != c);
            } else {
                assert(z[i] != c && z[j] != c && z[i] != z[j]);
            }
        }
    }
}

/// The dialog on top of the stack, the one that the Enter key answers.
pub fn top_dialog(z_indices: &Vec<i32>) -> (r: usize)
    requires
        exists|i: int| 0 <= i < z_indices.len() && z_indices[i] == z_indices.len() - 1,
    ensures
        r < z_indices.len(),
        z_indices[r as int] == z_indices.len() - 1,
{
    let top: i32 = (z_indices.len() - 1) as i32;
    let mut i: usize = 0;
    while i < z_indices.len()
        invariant
            top == z_indices.len() - 1,
            i <= z_indices.len(),
            forall|j: int| 0 <= j < i ==> z_indices[j] != z_indices.len() - 1,
            exists|m: int| 0 <= m < z_indices.len() && z_indices[m] == z_indices.len() - 1,
        decreases z_indices.len() - i,
    {
        if z_indices[i] == top {
            return i;
        }
        i += 1;
    }
    0
}

/// The darkened background behind dialogs, with the number of dialogs open.
#[derive(Debug, Clone, Copy, PartialEq, Eq, Structural)]
pub struct DialogBackground {
    pub open_dialogs: usize,
    pub visible: bool,
}

impl DialogBackground {
    /// No dialog open, background hidden.
    pub fn new() -> (r: Self)
        ensures
            r.open_dialogs == 0,
            !r.visible,
    {
        DialogBackground { open_dialogs: 0, visible: false }
    }

    /// A dialog opened: the background shows.
    pub fn on_dialog_root_add(&mut self)
        requires
            old(self).open_dialogs < usize::MAX,
        ensures
            final(self).open_dialogs == old(self).open_dialogs + 1,
            final(self).visible,
    {
        self.open_dialogs = self.open_dialogs + 1;
        if !self.visible {
            self.visible = true;
        }
    }

    /// A dialog closed: the background hides once no dialog is left.
    pub fn on_dialog_root_remove(&mut self)
        requires
            old(self).open_dialogs > 0,
        ensures
            final(self).open_dialogs == old(self).open_dialogs - 1,
            final(self).visible == if final(self).open_dialogs == 0 {
                false
            } else {
                old(self).visible
            },
    {
        self.open_dialogs = self.open_dialogs - 1;
        if self.open_dialogs == 0 {
            self.visible = false;
        }
    }
}

/// Opening and closing dialogs keeps the background shown exactly while some
/// dialog is open.
pub proof fn lemma_background_visible_iff_open(b: DialogBackground, opened: bool)
    requires
        b.visible == (b.open_dialogs > 0),
        opened ==> b.open_dialogs < usize::MAX,
        !opened ==> b.open_dialogs > 0,
    ensures
        ({
            let n = if opened {
                b.open_dialogs + 1
            } else {
                b.open_dialogs - 1
            };
            let v = if opened {
                true
            } else if n == 0 {
                false
            } else {
                b.visible
            };
            v == (n > 0)
        }),
{
}


/// What a key press does to the dialog on top.
#[derive(Debug, Clone, Copy, PartialEq, Eq, Structural)]
pub enum DialogKeyAction {
    /// Nothing happens.
    Ignore,
    /// The dialog is confirmed and closed.
    Confirm,
    /// The dialog is closed without being confirmed.
    Close,
}

/// What Enter and Backspace do while dialogs are open. Keys typed into a text
/// field are left to it. Enter confirms and closes the dialog on top, unless
/// its confirm button is disabled; Backspace closes it.
pub fn dialog_key_action(
    enter: bool,
    backspace: bool,
    dialog_open: bool,
    text_input_focused: bool,
    confirm_disabled: bool,
) -> (r: DialogKeyAction)
    ensures
        r == if !(enter || backspace) || !dialog_open || text_input_focused {
            DialogKeyAction::Ignore
        } else if enter {
            if confirm_disabled {
                DialogKeyAction::Ignore
            } else {
                DialogKeyAction::Confirm
            }
        } else {
            DialogKeyAction::Close
        },
{
    if !(enter || backspace) || !dialog_open || text_input_focused {
        DialogKeyAction::Ignore
    } else if enter {
        if confirm_disabled {
            DialogKeyAction::Ignore
        } else {
            DialogKeyAction::Confirm
        }
    } else {
        DialogKeyAction::Close
    }
}

} // verus!
