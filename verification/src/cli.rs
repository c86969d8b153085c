//! What the command line asks for.
use vstd::prelude::*;
use crate::proxy::{http_proxy_url, isValidProxy, valid_proxy};
use crate::text::is_literal;

verus! {

/// The request that the command-line arguments make (the program's name first).
pub enum Request {
    /// No command was given: print the usage.
    Usage,
    /// `--set` without an address: report it and print the usage.
    MissingProxy,
    /// `--set` with an address that is not `host:port`.
    InvalidProxy,
    /// `--set host:port`: configure every service to use `proxy_url`.
    SetProxy { proxy_url: String },
    /// `--unset`: remove the proxy from every service.
    Unset,
    /// `--status`: report which services have a proxy.
    Status,
    /// `--help`: print the usage.
    Help,
    /// Any other command: report it and print the usage.
    Unknown { command: String },
}

/// The command names.
pub open spec fn is_known_command(c: Seq<char>) -> bool {
    c == "--set"@ || c == "--unset"@ || c == "--status"@ || c == "--help"@
}

/// Reads the request from the arguments `args` (`args[0]` is the program).
pub fn parse_request(args: &Vec<String>) -> (r: Request)
    ensures
        (r is Usage) <==> args@.len() < 2,
        (r is MissingProxy) <==> args@.len() == 2 && args@[1]@ == "--set"@,
        (r is InvalidProxy) <==> args@.len() >= 3 && args@[1]@ == "--set"@ && !valid_proxy(
            args@[2]@,
        ),
        (r is SetProxy) <==> args@.len() >= 3 && args@[1]@ == "--set"@ && valid_proxy(args@[2]@),
        r matches Request::SetProxy { proxy_url } ==> proxy_url@ == "http://"@ + args@[2]@,
        (r is Unset) <==> args@.len() >= 2 && args@[1]@ == "--unset"@,
        (r is Status) <==> args@.len() >= 2 && args@[1]@ == "--status"@,
        (r is Help) <==> args@.len() >= 2 && args@[1]@ == "--help"@,
        (r is Unknown) <==> args@.len() >= 2 && !is_known_command(args@[1]@),
        r matches Request::Unknown { command } ==> command@ == args@[1]@,
{
    proof {
        reveal_strlit("--set");
        reveal_strlit("--unset");
        reveal_strlit("--status");
        reveal_strlit("--help");
        assert("--set"@.len() != "--unset"@.len());
        assert("--set"@.len() != "--status"@.len());
        assert("--set"@.len() != "--help"@.len());
        assert("--unset"@[2] != "--status"@[2]);
        assert("--unset"@.len() != "--help"@.len());
        assert("--status"@.len() != "--help"@.len());
    }
    if args.len() < 2 {
        return Request::Usage;
    }
    let command = &args[1];
    if is_literal(command, "--set") {
        if args.len() < 3 {
            return Request::MissingProxy;
        }
        let proxy = args[2].as_str();
        if !isValidProxy(proxy) {
            return Request::InvalidProxy;
        }
        Request::SetProxy { proxy_url: http_proxy_url(proxy) }
    } else if is_literal(command, "--unset") {
        Request::Unset
    } else if is_literal(command, "--status") {
        Request::Status
    } else if is_literal(command, "--help") {
        Request::Help
    } else {
        Request::Unknown { command: command.clone() }
    }
}

} // verus!
