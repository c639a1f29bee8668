//! Opening a browser.
use super::Platform;
use vstd::prelude::*;
use vstd::string::*;

verus! {

/// A program and its arguments. No shell reads them.
#[derive(Debug, PartialEq, Eq)]
pub struct BrowserCommand {
    pub program: &'static str,
    pub arguments: Vec<String>,
}

pub fn command_for(platform: Platform, url: &str) -> (r: BrowserCommand)
    ensures
        r.program@ == (match platform {
            Platform::Linux => "xdg-open"@,
            Platform::MacOs => "open"@,
        }),
        r.arguments@.len() == 1,
        r.arguments@[0]@ == url@,
{
    let program = match platform {
        Platform::Linux => "xdg-open",
        Platform::MacOs => "open",
    };
    let mut arguments: Vec<String> = Vec::new();
    arguments.push(url.to_owned());
    BrowserCommand { program, arguments }
}

} // verus!
