//! The command-line operations and their options.

use vstd::prelude::*;

use crate::lxptypes::{ColorPrint, Mode, Ship};

verus! {

/// Selects a client operation.
pub struct Cli {
    /// Increases diagnostic verbosity.
    pub verbose: u8,
    /// Chooses the operation to perform.
    pub command: Command,
}

/// Defines supported client operations.
pub enum Command {
    /// Creates and maintains profiles.
    Profile(Profile),
    /// Retrieves invoices.
    Invoice(Invoice),
    /// Inspects or deletes print jobs.
    Job(Job),
    /// Submits PDF files (`send`, with `set` as an alias).
    Send(Send),
    /// Watches a directory for PDF files.
    WatchDir(Send),
}

/// Selects profile maintenance actions.
pub struct Profile {
    /// Creates and selects a profile.
    pub new: bool,
    /// Deletes a profile.
    pub delete: bool,
    /// Deletes every profile.
    pub delete_all: bool,
    /// Selects a profile.
    pub switch: bool,
    /// Lists profiles.
    pub overview: bool,
    /// Supplies positional profile data.
    pub data: ProfileData,
}

/// Supplies profile connection information.
pub struct ProfileData {
    /// Names the profile.
    pub profile: Option<String>,
    /// Identifies the account.
    pub user: Option<String>,
    /// Sets the service URL.
    pub url: Option<String>,
    /// Authenticates the account.
    pub api_key: Option<String>,
}

/// Selects an invoice operation.
pub struct Invoice {
    /// Retrieves an invoice by identifier.
    pub id: Option<i32>,
    /// Retrieves the latest invoice.
    pub current: bool,
    /// Lists invoices.
    pub list: bool,
}

/// Selects job operations.
pub struct Job {
    /// Enables cancellation.
    pub delete: bool,
    /// Cancels all pending jobs.
    pub all: bool,
    /// Cancels a single job.
    pub id: Option<i32>,
    /// Lists jobs.
    pub overview: bool,
}

/// Selects documents and print options.
pub struct Send {
    /// Locates the PDF file or directory.
    pub path: String,
    /// Prints in colour; printing is black and white unless asked for.
    pub color: bool,
    /// Prints in black and white, also where colour was asked for.
    pub black_and_white: bool,
    /// Sends internationally.
    pub international: bool,
    /// Prints on both sides.
    pub duplex: bool,
}

impl Send {
    /// The print options the flags select: black and white, one side and
    /// domestic delivery by default; colour only when asked for and not
    /// overridden by black and white, both sides when duplex, and
    /// international delivery when asked for.
    pub fn print_options(&self) -> (r: (ColorPrint, Mode, Ship))
        ensures
            r.0 == (if self.color && !self.black_and_white {
                ColorPrint::Color
            } else {
                ColorPrint::BlackAndWhite
            }),
            r.1 == (if self.duplex {
                Mode::Duplex
            } else {
                Mode::Simplex
            }),
            r.2 == (if self.international {
                Ship::International
            } else {
                Ship::National
            }),
    {
        let color = if self.color && !self.black_and_white {
            ColorPrint::Color
        } else {
            ColorPrint::BlackAndWhite
        };
        let mode = if self.duplex {
            Mode::Duplex
        } else {
            Mode::Simplex
        };
        let ship = if self.international {
            Ship::International
        } else {
            Ship::National
        };
        (color, mode, ship)
    }
}

} // verus!
