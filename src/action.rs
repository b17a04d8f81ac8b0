//! The actions that the application performs.
use vstd::prelude::*;

verus! {

/// The different actions that can be performed by the application.
#[derive(Debug, Clone, PartialEq, Eq, Hash)]
pub enum Action {
    /// Add a character to the input buffer.
    AddInputChar(char),
    /// Delete the character before the cursor from the input buffer.
    DeletePrevChar,
    /// Delete the character after the cursor from the input buffer.
    DeleteNextChar,
    /// Move the cursor to the character before the current cursor position.
    GoToPrevChar,
    /// Move the cursor to the character after the current cursor position.
    GoToNextChar,
    /// Move the cursor to the start of the input buffer.
    GoToInputStart,
    /// Move the cursor to the end of the input buffer.
    GoToInputEnd,
    /// Render the terminal user interface screen.
    Render,
    /// Resize the terminal user interface screen to the given dimensions.
    Resize(u16, u16),
    /// Clear the terminal user interface screen.
    ClearScreen,
    /// Select the entry currently under the cursor.
    SelectEntry,
    /// Select the entry currently under the cursor and pass the key that was pressed
    /// through to be handled the parent process.
    SelectPassthrough(String),
    /// Select the entry currently under the cursor and exit the application.
    SelectAndExit,
    /// Select the next entry in the currently focused list.
    SelectNextEntry,
    /// Select the previous entry in the currently focused list.
    SelectPrevEntry,
    /// Copy the currently selected entry to the clipboard.
    CopyEntryToClipboard,
    /// Scroll the preview up by one line.
    ScrollPreviewUp,
    /// Scroll the preview down by one line.
    ScrollPreviewDown,
    /// Scroll the preview up by half a page.
    ScrollPreviewHalfPageUp,
    /// Scroll the preview down by half a page.
    ScrollPreviewHalfPageDown,
    /// Open the currently selected entry in the default application.
    OpenEntry,
    /// Tick the application state.
    Tick,
    /// Suspend the application.
    Suspend,
    /// Resume the application.
    Resume,
    /// Quit the application.
    Quit,
    /// Toggle the help bar.
    ToggleHelp,
    /// Signal an error with the given message.
    Error(String),
    /// No operation.
    NoOp,
    /// Toggle the remote control channel.
    ToggleRemoteControl,
    /// Toggle the remote control in `send to channel` mode.
    ToggleSendToChannel,
}

impl Action {
    /// The name of the action's variant, without its data.
    pub fn name(&self) -> (r: &'static str) {
        match self {
            Action::AddInputChar(..) => "AddInputChar",
            Action::DeletePrevChar => "DeletePrevChar",
            Action::DeleteNextChar => "DeleteNextChar",
            Action::GoToPrevChar => "GoToPrevChar",
            Action::GoToNextChar => "GoToNextChar",
            Action::GoToInputStart => "GoToInputStart",
            Action::GoToInputEnd => "GoToInputEnd",
            Action::Render => "Render",
            Action::Resize(..) => "Resize",
            Action::ClearScreen => "ClearScreen",
            Action::SelectEntry => "SelectEntry",
            Action::SelectPassthrough(..) => "SelectPassthrough",
            Action::SelectAndExit => "SelectAndExit",
            Action::SelectNextEntry => "SelectNextEntry",
            Action::SelectPrevEntry => "SelectPrevEntry",
            Action::CopyEntryToClipboard => "CopyEntryToClipboard",
            Action::ScrollPreviewUp => "ScrollPreviewUp",
            Action::ScrollPreviewDown => "ScrollPreviewDown",
            Action::ScrollPreviewHalfPageUp => "ScrollPreviewHalfPageUp",
            Action::ScrollPreviewHalfPageDown => "ScrollPreviewHalfPageDown",
            Action::OpenEntry => "OpenEntry",
            Action::Tick => "Tick",
            Action::Suspend => "Suspend",
            Action::Resume => "Resume",
            Action::Quit => "Quit",
            Action::ToggleHelp => "ToggleHelp",
            Action::Error(..) => "Error",
            Action::NoOp => "NoOp",
            Action::ToggleRemoteControl => "ToggleRemoteControl",
            Action::ToggleSendToChannel => "ToggleSendToChannel",
        }
    }
}

} // verus!
