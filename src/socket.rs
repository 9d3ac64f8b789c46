//! Commands of the control socket and the replies of the daemon.
use crate::engine::GpuMetricsData;
use vstd::prelude::*;

verus! {

/// Commands the control socket accepts.
#[derive(Debug)]
pub enum SocketCommand {
    /// Check that the daemon is alive.
    Ping,
    /// The current wallpaper of one output, or of all.
    Current { output_name: Option<String> },
    /// Toggle the visibility of one output, or of all.
    Toggle { output_name: Option<String> },
    Hide { output_name: Option<String> },
    Show { output_name: Option<String> },
    /// Switch to the named profile, or to the default one.
    ChangeProfile { profile_name: Option<String> },
    /// The configured profiles.
    Profiles,
    /// The GPU cache counters.
    GpuMetrics,
}

pub open spec fn command_name_spec(c: SocketCommand) -> Seq<char> {
    match c {
        SocketCommand::Ping => seq!['p', 'i', 'n', 'g'],
        SocketCommand::Current { .. } => seq!['c', 'u', 'r', 'r', 'e', 'n', 't'],
        SocketCommand::Toggle { .. } => seq!['t', 'o', 'g', 'g', 'l', 'e'],
        SocketCommand::Hide { .. } => seq!['h', 'i', 'd', 'e'],
        SocketCommand::Show { .. } => seq!['s', 'h', 'o', 'w'],
        SocketCommand::ChangeProfile { .. } => seq![
            'c', 'h', 'a', 'n', 'g', 'e', '-', 'p', 'r', 'o', 'f', 'i', 'l', 'e',
        ],
        SocketCommand::Profiles => seq!['p', 'r', 'o', 'f', 'i', 'l', 'e', 's'],
        SocketCommand::GpuMetrics => seq!['g', 'p', 'u', '-', 'm', 'e', 't', 'r', 'i', 'c', 's'],
    }
}

impl SocketCommand {
    /// The command's name on the command line and in the end-of-reply record.
    pub fn name(&self) -> (r: String)
        ensures
            r@ == command_name_spec(*self),
    {
        match self {
            SocketCommand::Ping => {
                proof {
                    reveal_strlit("ping");
                }
                String::from_str("ping")
            },
            SocketCommand::Current { .. } => {
                proof {
                    reveal_strlit("current");
                }
                String::from_str("current")
            },
            SocketCommand::Toggle { .. } => {
                proof {
                    reveal_strlit("toggle");
                }
                String::from_str("toggle")
            },
            SocketCommand::Hide { .. } => {
                proof {
                    reveal_strlit("hide");
                }
                String::from_str("hide")
            },
            SocketCommand::Show { .. } => {
                proof {
                    reveal_strlit("show");
                }
                String::from_str("show")
            },
            SocketCommand::ChangeProfile { .. } => {
                proof {
                    reveal_strlit("change-profile");
                }
                String::from_str("change-profile")
            },
            SocketCommand::Profiles => {
                proof {
                    reveal_strlit("profiles");
                }
                String::from_str("profiles")
            },
            SocketCommand::GpuMetrics => {
                proof {
                    reveal_strlit("gpu-metrics");
                }
                String::from_str("gpu-metrics")
            },
        }
    }
}

/// Errors reported to a socket client.
#[derive(Debug, Clone, PartialEq, Eq)]
pub enum SocketError {
    NoCurrentImage { output: String },
    UnindentifiedOutput { output_name: String },
    UnexpectedError,
    NoProfile(String),
    CommandUnimplemented { command: String },
    CannotDeletePreviousSocket { socket_path: String, error: String },
    CannotBindUnixSocket { socket_path: String, error: String },
    SpawnSenderOnce { socket_path: String },
}

fn join3(a: &str, b: &str, c: &str) -> (r: String)
    ensures
        r@ == a@ + b@ + c@,
{
    String::from_str(a).concat(b).concat(c)
}

impl SocketError {
    /// The human-readable text of the error.
    pub fn message(&self) -> (r: String)
        ensures
            match *self {
                SocketError::NoProfile(p) => r@ == seq!['P', 'r', 'o', 'f', 'i', 'l', 'e', ' ', '"']
                    + p@ + seq!['"', ' ', 'i', 's', ' ', 'n', 'o', 't', ' ', 'd', 'e', 'f', 'i', 'n', 'e', 'd', '.'],
                _ => true,
            },
    {
        match self {
            SocketError::NoCurrentImage { output } => join3("No current image for the output: ", output.as_str(), ""),
            SocketError::UnindentifiedOutput { output_name } => join3("Unidentified output provided: ", output_name.as_str(), ""),
            SocketError::UnexpectedError => String::from_str("Unexpected error occured."),
            SocketError::NoProfile(p) => {
                proof {
                    reveal_strlit("Profile \"");
                    reveal_strlit("\" is not defined.");
                }
                join3("Profile \"", p.as_str(), "\" is not defined.")
            },
            SocketError::CommandUnimplemented { command } => join3("Daemon unimplemented command: ", command.as_str(), ""),
            SocketError::CannotDeletePreviousSocket { socket_path, error } => {
                let head = join3("Unable to delete the previous socket at ", socket_path.as_str(), ": ");
                head.concat(error.as_str())
            },
            SocketError::CannotBindUnixSocket { socket_path, error } => {
                let head = join3("Unable to bind to socket at ", socket_path.as_str(), ": ");
                head.concat(error.as_str())
            },
            SocketError::SpawnSenderOnce { socket_path } => join3(
                "The accepted socket connection sender thread should only be called once. Socket: ",
                socket_path.as_str(),
                "",
            ),
        }
    }
}

/// The wallpaper an output shows.
#[derive(Debug, Clone, PartialEq, Eq)]
pub struct OutputWallpaper {
    pub output_name: String,
    pub wallpaper: String,
}

/// One reply record of the daemon.
#[derive(Debug, PartialEq, Eq)]
pub enum SocketOutput {
    Message(String),
    CurrentWallpaper(OutputWallpaper),
    Wallpapers(Vec<OutputWallpaper>),
    SingleError(SocketError),
    MultipleErrors(Vec<SocketError>),
    Profiles(Vec<String>),
    GpuMetrics(GpuMetricsData),
    /// Closes the reply to the named command.
    End(String),
}

} // verus!
