//! The `reset-admin-password` command of the server: its arguments, and the password it
//! reads from standard input.
use vstd::prelude::*;
use crate::delisted::texts;
use crate::text::{chars_of, push_str, string_from_chars, trim, trim_white};

verus! {

/// Where the new password comes from.
#[derive(Debug, Clone)]
pub enum PasswordSource {
    /// Given on the command line (not empty).
    Given(String),
    /// To be read from standard input.
    Stdin,
}

/// What the command line asks for.
#[derive(Debug, Clone)]
pub enum ResetRequest {
    /// Not the reset command: the server starts as usual.
    NotReset,
    /// The usage text, and nothing else.
    Help,
    /// Refused, with the message, and whether the usage text is shown too.
    Invalid { message: String, show_usage: bool },
    /// Reset the password of the (trimmed) user name.
    Run { username: String, password: PasswordSource },
}

/// What reading the options from position `i` on gives.
pub enum OptionsRead {
    /// The options end: the user name, the password given, and whether standard input
    /// is asked for.
    Done(Seq<char>, Option<Seq<char>>, bool),
    /// `--help` or `-h`.
    Help,
    /// A refusal, with its message (the usage text is shown).
    Bad(Seq<char>),
}

/// Reads the options from position `i` on, with the user name, password and flag so far:
/// `--username` and `--password` take the next argument (missing: refused), a later one
/// wins; `--password-stdin` sets the flag; `--help` and `-h` ask for the usage; anything
/// else is refused.
pub open spec fn read_options(args: Seq<Seq<char>>, i: int, username: Seq<char>, password: Option<Seq<char>>, stdin: bool) -> OptionsRead
    decreases args.len() - i,
{
    if i < 0 || i >= args.len() {
        OptionsRead::Done(username, password, stdin)
    } else if args[i] == "--username"@ {
        if i + 1 >= args.len() {
            OptionsRead::Bad("missing value for --username"@)
        } else {
            read_options(args, i + 2, args[i + 1], password, stdin)
        }
    } else if args[i] == "--password"@ {
        if i + 1 >= args.len() {
            OptionsRead::Bad("missing value for --password"@)
        } else {
            read_options(args, i + 2, username, Some(args[i + 1]), stdin)
        }
    } else if args[i] == "--password-stdin"@ {
        read_options(args, i + 1, username, password, true)
    } else if args[i] == "--help"@ || args[i] == "-h"@ {
        OptionsRead::Help
    } else {
        OptionsRead::Bad("unknown argument: "@ + args[i])
    }
}

/// Whether the request is what the command line asks for: not the reset command unless
/// the second argument is `reset-admin-password`; then the options from the third on (see
/// [`read_options`], user `admin` by default); a blank user name, or both password
/// options, refused without the usage text; a missing or empty password refused with it.
pub open spec fn is_reset_request(r: ResetRequest, args: Seq<Seq<char>>) -> bool {
    if args.len() < 2 || args[1] != "reset-admin-password"@ {
        r is NotReset
    } else {
        match read_options(args, 2, "admin"@, None, false) {
            OptionsRead::Help => r is Help,
            OptionsRead::Bad(m) => r matches ResetRequest::Invalid { message, show_usage } && message@ == m && show_usage,
            OptionsRead::Done(user, password, stdin) => if trim_white(user).len() == 0 {
                r matches ResetRequest::Invalid { message, show_usage } && message@ == "username must not be empty"@ && !show_usage
            } else if stdin && password is Some {
                r matches ResetRequest::Invalid { message, show_usage } && message@
                    == "use either --password or --password-stdin, not both"@ && !show_usage
            } else if stdin {
                r matches ResetRequest::Run { username, password: PasswordSource::Stdin } && username@ == trim_white(user)
            } else {
                let p = match password {
                    Some(p) => p,
                    None => Seq::<char>::empty(),
                };
                if p.len() == 0 {
                    r matches ResetRequest::Invalid { message, show_usage } && message@ == "password must not be empty"@ && show_usage
                } else {
                    r matches ResetRequest::Run { username, password: PasswordSource::Given(g) } && username@ == trim_white(user)
                        && g@ == p
                }
            },
        }
    }
}

fn invalid(message: &str, show_usage: bool) -> (r: ResetRequest)
    ensures
        r matches ResetRequest::Invalid { message: m, show_usage: u } && m@ == message@ && u == show_usage,
{
    ResetRequest::Invalid { message: message.to_owned(), show_usage }
}

/// What the command line asks for (see [`is_reset_request`]); `args` starts with the
/// program's name.
pub fn parse_reset_request(args: &Vec<String>) -> (r: ResetRequest)
    ensures
        is_reset_request(r, texts(args@)),
{
    let ghost all = texts(args@);
    if args.len() < 2 || !crate::apple::same_text(args[1].as_str(), "reset-admin-password") {
        return ResetRequest::NotReset;
    }
    let mut username = "admin".to_owned();
    let mut password: Option<String> = None;
    let mut stdin = false;
    let mut i: usize = 2;
    while i < args.len()
        invariant
            2 <= i <= args@.len(),
            all == texts(args@),
            all.len() >= 2,
            all[1] == "reset-admin-password"@,
            read_options(all, 2, "admin"@, None, false) == read_options(
                all,
                i as int,
                username@,
                crate::text::opt_text(password),
                stdin,
            ),
        decreases args@.len() - i,
    {
        let a = args[i].as_str();
        assert(all[i as int] == a@);
        if crate::apple::same_text(a, "--username") {
            if i + 1 >= args.len() {
                return invalid("missing value for --username", true);
            }
            assert(all[i + 1] == args@[i + 1]@);
            username = args[i + 1].clone();
            i = i + 2;
        } else if crate::apple::same_text(a, "--password") {
            if i + 1 >= args.len() {
                return invalid("missing value for --password", true);
            }
            assert(all[i + 1] == args@[i + 1]@);
            password = Some(args[i + 1].clone());
            i = i + 2;
        } else if crate::apple::same_text(a, "--password-stdin") {
            stdin = true;
            i = i + 1;
        } else if crate::apple::same_text(a, "--help") || crate::apple::same_text(a, "-h") {
            return ResetRequest::Help;
        } else {
            let mut buf: Vec<char> = Vec::new();
            push_str(&mut buf, "unknown argument: ");
            push_str(&mut buf, a);
            return ResetRequest::Invalid { message: string_from_chars(buf.as_slice()), show_usage: true };
        }
    }
    let user = trim(username.as_str());
    if user.as_str().is_empty() {
        return invalid("username must not be empty", false);
    }
    if stdin {
        if password.is_some() {
            return invalid("use either --password or --password-stdin, not both", false);
        }
        return ResetRequest::Run { username: user, password: PasswordSource::Stdin };
    }
    let given = match password {
        Some(p) => p,
        None => String::new(),
    };
    if given.as_str().is_empty() {
        return invalid("password must not be empty", true);
    }
    ResetRequest::Run { username: user, password: PasswordSource::Given(given) }
}

/// The text without its trailing carriage returns and line feeds.
pub open spec fn without_line_ends(s: Seq<char>) -> Seq<char>
    decreases s.len(),
{
    if s.len() > 0 && (s.last() == '\r' || s.last() == '\n') {
        without_line_ends(s.drop_last())
    } else {
        s
    }
}

/// A password read from standard input: the text without its trailing line ends (see
/// [`without_line_ends`]); refused with `password must not be empty` (and the usage
/// text) when nothing is left.
pub fn stdin_password(raw: &str) -> (r: Result<String, String>)
    ensures
        match r {
            Ok(p) => p@ == without_line_ends(raw@) && p@.len() > 0,
            Err(m) => m@ == "password must not be empty"@ && without_line_ends(raw@).len() == 0,
        },
{
    let cs = chars_of(raw);
    let mut end: usize = cs.len();
    assert(cs@.subrange(0, end as int) =~= cs@);
    while end > 0 && (cs[end - 1] == '\r' || cs[end - 1] == '\n')
        invariant
            end <= cs@.len(),
            without_line_ends(cs@) == without_line_ends(cs@.subrange(0, end as int)),
        decreases end,
    {
        assert(cs@.subrange(0, end as int).drop_last() =~= cs@.subrange(0, end as int - 1));
        end = end - 1;
    }
    let kept = crate::bundle::slice_chars(cs.as_slice(), 0, end);
    if end == 0 {
        return Err("password must not be empty".to_owned());
    }
    Ok(string_from_chars(kept.as_slice()))
}

} // verus!
