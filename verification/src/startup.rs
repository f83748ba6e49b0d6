//! What the gateway is started with: its configuration and the command that
//! selects a mode.

use vstd::prelude::*;

verus! {

/// Where the upstream is and where to listen. It is made once at startup and
/// only read afterwards.
#[derive(Clone, Debug, PartialEq, Eq)]
pub struct UpstreamConfig {
    /// The absolute HTTPS URL of the DoH upstream.
    pub dns_server: String,
    /// The UDP port to listen on; only forward mode needs it.
    pub port: Option<u16>,
}

/// Mathematical value of an [`UpstreamConfig`].
pub struct UpstreamConfigView {
    pub dns_server: Seq<char>,
    pub port: Option<u16>,
}

impl View for UpstreamConfig {
    type V = UpstreamConfigView;

    open spec fn view(&self) -> UpstreamConfigView {
        UpstreamConfigView { dns_server: self.dns_server@, port: self.port }
    }
}

/// What the gateway was asked to do.
#[derive(Clone, Debug, PartialEq, Eq)]
pub enum Command {
    /// Resolve one name through the upstream and exit.
    Resolve { domain: String },
    /// Serve UDP clients on a port until terminated.
    Forward { port: u16 },
}

/// Mathematical value of a [`Command`].
pub enum CommandView {
    Resolve { domain: Seq<char> },
    Forward { port: u16 },
}

impl View for Command {
    type V = CommandView;

    open spec fn view(&self) -> CommandView {
        match *self {
            Command::Resolve { domain } => CommandView::Resolve { domain: domain@ },
            Command::Forward { port } => CommandView::Forward { port },
        }
    }
}

/// Why the gateway cannot start.
#[derive(Clone, Copy, Debug, PartialEq, Eq, Structural)]
pub enum StartupError {
    /// No mode was given.
    MissingMode,
    /// `resolve` takes exactly one domain.
    ResolveUsage,
    /// The mode is neither `resolve` nor `forward`.
    UnknownMode,
    /// Forward mode was asked for and no listen port is configured.
    MissingPort,
}

/// The texts of a list of strings, in order.
pub open spec fn arguments(args: Seq<String>) -> Seq<Seq<char>> {
    args.map_values(|a: String| a@)
}

/// The command that an argument list selects under a configuration. The first
/// argument is the program's own name, the second the mode.
pub open spec fn selected(args: Seq<Seq<char>>, config: UpstreamConfigView) -> Result<
    CommandView,
    StartupError,
> {
    if args.len() < 2 {
        Err(StartupError::MissingMode)
    } else if args[1] == "resolve"@ {
        if args.len() == 3 {
            Ok(CommandView::Resolve { domain: args[2] })
        } else {
            Err(StartupError::ResolveUsage)
        }
    } else if args[1] == "forward"@ {
        match config.port {
            Some(port) => Ok(CommandView::Forward { port }),
            None => Err(StartupError::MissingPort),
        }
    } else {
        Err(StartupError::UnknownMode)
    }
}

/// Selects the command from the argument list and the configuration.
pub fn select_command(args: &Vec<String>, config: &UpstreamConfig) -> (r: Result<
    Command,
    StartupError,
>)
    ensures
        match r {
            Ok(command) => selected(arguments(args@), config@) == Ok::<CommandView, StartupError>(
                command@,
            ),
            Err(e) => selected(arguments(args@), config@) == Err::<CommandView, StartupError>(e),
        },
{
    if args.len() < 2 {
        return Err(StartupError::MissingMode);
    }
    let mode = &args[1];
    assert(arguments(args@)[1] == mode@);
    let resolve = "resolve".to_owned();
    let forward = "forward".to_owned();
    if *mode == resolve {
        if args.len() == 3 {
            assert(arguments(args@)[2] == args@[2]@);
            Ok(Command::Resolve { domain: args[2].clone() })
        } else {
            Err(StartupError::ResolveUsage)
        }
    } else if *mode == forward {
        match config.port {
            Some(port) => Ok(Command::Forward { port }),
            None => Err(StartupError::MissingPort),
        }
    } else {
        Err(StartupError::UnknownMode)
    }
}

} // verus!
