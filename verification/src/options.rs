//! The client's command-line options that the library reads.
use vstd::prelude::*;
use crate::text::views;

verus! {

/// `init`: no options.
#[derive(Clone, Debug)]
pub struct InitOption {}

/// `push`: the remote (`horsed` when none is given) and the branch.
#[derive(Clone, Debug)]
pub struct PushOptions {
    pub remote: Option<String>,
    pub branch: Option<String>,
}

impl PushOptions {
    /// The arguments of `git` that push: `push`, the remote, and the branch
    /// when one is given.
    pub fn push_args(&self) -> (r: Vec<String>)
        ensures
            views(r@) == seq![
                "push"@,
                match self.remote {
                    Some(x) => x@,
                    None => "horsed"@,
                },
            ] + match self.branch {
                Some(b) => seq![b@],
                None => Seq::<Seq<char>>::empty(),
            },
    {
        let remote = match &self.remote {
            Some(x) => x.clone(),
            None => String::from_str("horsed"),
        };
        let mut r = vec![String::from_str("push"), remote];
        let ghost head = views(r@);
        match &self.branch {
            Some(b) => {
                r.push(b.clone());
                assert(views(r@) =~= head.push(b@));
            },
            None => {
                assert(views(r@) =~= head + Seq::<Seq<char>>::empty());
            },
        }
        r
    }
}

/// `logs`: whether to keep following the log.
#[derive(Clone, Debug)]
pub struct LogsOptions {
    pub forward: bool,
}

impl LogsOptions {
    /// The command a `logs` request sends: `logs`, with `-f` to follow.
    pub fn remote_command(&self) -> (r: &'static str)
        ensures
            self.forward ==> r@ == "logs -f"@,
            !self.forward ==> r@ == "logs"@,
    {
        if self.forward {
            "logs -f"
        } else {
            "logs"
        }
    }
}

/// `ra`: the rust-analyzer client, with an optional sub-command.
#[derive(Clone, Debug)]
pub struct RaOptions {
    pub command: Option<RaCommand>,
}

/// The sub-commands of `ra`.
#[derive(Clone, Debug)]
pub enum RaCommand {
    /// Connect to the proxy (the default).
    Client(RaClientOptions),
    /// The proxy's configuration.
    Config(RaConfigOptions),
    /// The proxy's state.
    Status(RaStatusOptions),
    /// Reload the workspace.
    Reload(RaReloadOptions),
}

/// `ra client`.
#[derive(Clone, Debug)]
pub struct RaClientOptions {}

/// `ra config`.
#[derive(Clone, Debug)]
pub struct RaConfigOptions {}

/// `ra reload`.
#[derive(Clone, Debug)]
pub struct RaReloadOptions {}

/// `ra status`: whether to print JSON.
#[derive(Clone, Debug)]
pub struct RaStatusOptions {
    pub json: bool,
}

impl RaOptions {
    /// The sub-command to run: `client` when none is given.
    pub fn command_or_client(self) -> (r: RaCommand)
        ensures
            self.command matches Some(c) ==> r == c,
            self.command is None ==> r is Client,
    {
        match self.command {
            Some(c) => c,
            None => RaCommand::Client(RaClientOptions {}),
        }
    }
}

} // verus!
