//! State machine behind the interactive account picker.
//!
//! The surrounding application reads keys and draws the screen; every
//! decision — which entry is highlighted, which account becomes source or
//! target, when a transfer may start — is made here and proved to keep the
//! picker's invariant: the highlight always points at a real entry.

use vstd::prelude::*;

verus! {

/// Which screen the interactive interface is showing.
#[derive(Clone, Copy, PartialEq, Eq, Structural, Debug)]
pub enum Screen {
    AccountSelection,
    TransferProgress,
    Complete,
}

/// Which of the two account slots the picker is currently filling.
#[derive(Clone, Copy, PartialEq, Eq, Structural, Debug)]
pub enum SelectedAccount {
    Source,
    Target,
}

/// The picker's whole state: the screen, the chosen accounts, the list of
/// known account names and the highlighted entry.
pub struct App {
    pub screen: Screen,
    pub source_account: Option<String>,
    pub target_account: Option<String>,
    pub selected_account: SelectedAccount,
    pub available_accounts: Vec<String>,
    pub selected_index: usize,
    pub transfer_status: String,
    pub should_quit: bool,
}

impl App {
    /// The highlight stays on a real entry; with no entries it rests at zero.
    pub open spec fn wf(self) -> bool {
        if self.available_accounts@.len() == 0 {
            self.selected_index == 0
        } else {
            self.selected_index < self.available_accounts@.len()
        }
    }

    /// Fresh picker over the account names the store listed.
    pub fn new(available_accounts: Vec<String>) -> (app: App)
        ensures
            app.wf(),
            app.screen == Screen::AccountSelection,
            app.source_account is None,
            app.target_account is None,
            app.selected_account == SelectedAccount::Source,
            app.available_accounts@ == available_accounts@,
            app.selected_index == 0,
            app.transfer_status@ == Seq::<char>::empty(),
            !app.should_quit,
    {
        App {
            screen: Screen::AccountSelection,
            source_account: None,
            target_account: None,
            selected_account: SelectedAccount::Source,
            available_accounts,
            selected_index: 0,
            transfer_status: String::new(),
            should_quit: false,
        }
    }

    /// Move the highlight one entry down, wrapping at the end.
    pub fn next_account(&mut self)
        requires
            old(self).wf(),
        ensures
            final(self).wf(),
            old(self).available_accounts@.len() == 0 ==> *final(self) == *old(self),
            old(self).available_accounts@.len() > 0 ==> *final(self) == (App {
                selected_index: ((old(self).selected_index + 1) as int
                    % old(self).available_accounts@.len() as int) as usize,
                ..*old(self)
            }),
    {
        if self.available_accounts.len() > 0 {
            self.selected_index = (self.selected_index + 1) % self.available_accounts.len();
        }
    }

    /// Move the highlight one entry up, wrapping at the start.
    pub fn previous_account(&mut self)
        requires
            old(self).wf(),
        ensures
            final(self).wf(),
            old(self).available_accounts@.len() == 0 ==> *final(self) == *old(self),
            old(self).available_accounts@.len() > 0 ==> *final(self) == (App {
                selected_index: if old(self).selected_index == 0 {
                    (old(self).available_accounts@.len() - 1) as usize
                } else {
                    (old(self).selected_index - 1) as usize
                },
                ..*old(self)
            }),
    {
        if self.available_accounts.len() > 0 {
            if self.selected_index == 0 {
                self.selected_index = self.available_accounts.len() - 1;
            } else {
                self.selected_index = self.selected_index - 1;
            }
        }
    }

    /// Confirm the highlighted entry: first as source, then as target.
    pub fn select_current_account(&mut self)
        requires
            old(self).wf(),
        ensures
            final(self).wf(),
            old(self).available_accounts@.len() == 0 ==> *final(self) == *old(self),
            old(self).available_accounts@.len() > 0
                && old(self).selected_account == SelectedAccount::Source ==> {
                &&& *final(self) == (App {
                    source_account: final(self).source_account,
                    selected_account: SelectedAccount::Target,
                    selected_index: 0,
                    ..*old(self)
                })
                &&& final(self).source_account matches Some(s)
                    && s@ == old(self).available_accounts@[
                        old(self).selected_index as int]@
            },
            old(self).available_accounts@.len() > 0
                && old(self).selected_account == SelectedAccount::Target ==> {
                &&& *final(self) == (App {
                    target_account: final(self).target_account,
                    ..*old(self)
                })
                &&& final(self).target_account matches Some(s)
                    && s@ == old(self).available_accounts@[
                        old(self).selected_index as int]@
            },
    {
        if self.available_accounts.len() == 0 {
            return;
        }
        let account = self.available_accounts[self.selected_index].clone();
        match self.selected_account {
            SelectedAccount::Source => {
                self.source_account = Some(account);
                self.selected_account = SelectedAccount::Target;
                self.selected_index = 0;
            }
            SelectedAccount::Target => {
                self.target_account = Some(account);
            }
        }
    }

    /// A transfer may start once both slots are filled.
    pub fn can_start_transfer(&self) -> (r: bool)
        ensures
            r == (self.source_account is Some && self.target_account is Some),
    {
        self.source_account.is_some() && self.target_account.is_some()
    }

    /// Entering the transfer: progress screen, fresh status line. The
    /// application runs the transfer itself between this and
    /// `finish_transfer`, since the engine's remote calls cannot live here.
    pub fn begin_transfer(&mut self)
        requires
            old(self).wf(),
        ensures
            final(self).wf(),
            *final(self) == (App {
                screen: Screen::TransferProgress,
                transfer_status: final(self).transfer_status,
                ..*old(self)
            }),
            final(self).transfer_status@ == "Starting transfer..."@,
    {
        self.screen = Screen::TransferProgress;
        self.transfer_status = "Starting transfer...".to_owned();
    }

    /// Leaving the transfer: completion screen and closing status line.
    pub fn finish_transfer(&mut self)
        requires
            old(self).wf(),
        ensures
            final(self).wf(),
            *final(self) == (App {
                screen: Screen::Complete,
                transfer_status: final(self).transfer_status,
                ..*old(self)
            }),
            final(self).transfer_status@ == "Transfer complete!"@,
    {
        self.screen = Screen::Complete;
        self.transfer_status = "Transfer complete!".to_owned();
    }

    /// Ask the event loop to stop; nothing else changes.
    pub fn quit(&mut self)
        requires
            old(self).wf(),
        ensures
            final(self).wf(),
            *final(self) == (App { should_quit: true, ..*old(self) }),
    {
        self.should_quit = true;
    }
}

} // verus!
