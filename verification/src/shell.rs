use vstd::prelude::*;

verus! {

/// The host platform, picked once at startup; command shapes differ by it.
#[derive(Clone, Copy, Debug, PartialEq, Eq, Structural)]
pub enum Platform {
    Windows,
    MacOs,
    Other,
}

/// A subprocess invocation: the program and its arguments, in order.
#[derive(Debug, Clone, PartialEq)]
pub struct CommandSpec {
    pub program: String,
    pub args: Vec<String>,
}

/// The arguments of the dependency-install invocation, after the program
/// itself and, on a platform that shells through a command interpreter, the
/// interpreter's pass-through flag and the real program name.
pub open spec fn npm_install_args(windows: bool) -> Seq<Seq<char>> {
    let tail = seq!["i"@, "--omit=dev"@, "--no-progress"@, "--save=false"@];
    if windows {
        seq!["/c"@, "npm"@] + tail
    } else {
        tail
    }
}

/// The dependency-install invocation for the host platform: `npm i` without
/// development dependencies, progress output or lockfile writes, shelled
/// through the command interpreter on Windows and run directly elsewhere.
pub fn npm_install_command(windows: bool) -> (r: CommandSpec)
    ensures
        windows ==> r.program@ == "cmd"@,
        !windows ==> r.program@ == "npm"@,
        r.args.deep_view() == npm_install_args(windows),
{
    let mut args: Vec<String> = Vec::new();
    if windows {
        args.push("/c".to_owned());
        args.push("npm".to_owned());
    }
    args.push("i".to_owned());
    args.push("--omit=dev".to_owned());
    args.push("--no-progress".to_owned());
    args.push("--save=false".to_owned());
    let program = if windows {
        "cmd".to_owned()
    } else {
        "npm".to_owned()
    };
    proof {
        assert(args.deep_view() =~= npm_install_args(windows));
    }
    CommandSpec { program, args }
}

/// The message reported on a platform with no way to open a terminal.
pub open spec fn no_terminal_message() -> Seq<char> {
    "Cannot open path in terminal outside MacOS or Windows."@
}

/// The change-directory argument handed to the Windows interpreter.
pub open spec fn cd_argument(path: Seq<char>) -> Seq<char> {
    "cd /D "@ + path
}

/// The invocation that opens a path in the user's terminal. On Windows a
/// development build starts a fresh interpreter window, so the new prompt
/// does not reuse the one the application was launched from; a release
/// build keeps the interpreter it spawns. On macOS the system opener brings
/// up the Terminal application. No other platform is supported; that is
/// reported as an error, not attempted.
pub fn terminal_command(platform: Platform, debug: bool, path: &str) -> (r: Result<
    CommandSpec,
    String,
>)
    ensures
        platform == Platform::Windows && debug ==> (r matches Ok(c) && c.program@ == "cmd"@
            && c.args.deep_view() == seq![
            "/c"@,
            "start"@,
            "cmd.exe"@,
            "/k"@,
            cd_argument(path@),
        ]),
        platform == Platform::Windows && !debug ==> (r matches Ok(c) && c.program@ == "cmd"@
            && c.args.deep_view() == seq!["/k"@, cd_argument(path@)]),
        platform == Platform::MacOs ==> (r matches Ok(c) && c.program@ == "open"@
            && c.args.deep_view() == seq!["-a"@, "Terminal"@, path@]),
        platform == Platform::Other ==> (r matches Err(m) && m@ == no_terminal_message()),
{
    match platform {
        Platform::Windows => {
            let cd = "cd /D ".to_owned().concat(path);
            let mut args: Vec<String> = Vec::new();
            if debug {
                args.push("/c".to_owned());
                args.push("start".to_owned());
                args.push("cmd.exe".to_owned());
                args.push("/k".to_owned());
                args.push(cd);
                proof {
                    assert(args.deep_view() =~= seq![
                        "/c"@,
                        "start"@,
                        "cmd.exe"@,
                        "/k"@,
                        cd_argument(path@),
                    ]);
                }
            } else {
                args.push("/k".to_owned());
                args.push(cd);
                proof {
                    assert(args.deep_view() =~= seq!["/k"@, cd_argument(path@)]);
                }
            }
            Ok(CommandSpec { program: "cmd".to_owned(), args })
        },
        Platform::MacOs => {
            let mut args: Vec<String> = Vec::new();
            args.push("-a".to_owned());
            args.push("Terminal".to_owned());
            args.push(path.to_owned());
            proof {
                assert(args.deep_view() =~= seq!["-a"@, "Terminal"@, path@]);
            }
            Ok(CommandSpec { program: "open".to_owned(), args })
        },
        Platform::Other => Err("Cannot open path in terminal outside MacOS or Windows.".to_owned()),
    }
}

} // verus!
