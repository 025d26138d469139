//! The thin computations the launcher boundary needs: the default steamcmd
//! location, the login command line, and its masked form for display.

use vstd::prelude::*;

verus! {

/// Default location of the steamcmd executable. The caller says which
/// platform it is on and whether the install script is present on disk; the
/// choice among the three well-known locations is made here.
pub fn find_default_steamcmd(windows: bool, script_exists: bool) -> (r: &'static str)
    ensures
        windows ==> r@ == "C:\\steamcmd\\steamcmd.exe"@,
        !windows && script_exists ==> r@ == "/home/steam/steamcmd/steamcmd.sh"@,
        !windows && !script_exists ==> r@ == "/home/steam/steamcmd"@,
{
    if windows {
        "C:\\steamcmd\\steamcmd.exe"
    } else {
        if script_exists {
            "/home/steam/steamcmd/steamcmd.sh"
        } else {
            "/home/steam/steamcmd"
        }
    }
}

/// The login argument handed to steamcmd: the credentials, the fresh code
/// and the extra arguments, space-separated behind `+login`.
pub fn login_command(username: &str, password: &str, code: &str, extra: &str) -> (r: String)
    ensures
        r@ == "+login "@ + username@ + " "@ + password@ + " "@ + code@ + " "@ + extra@,
{
    let mut r = String::from_str("+login ");
    r.append(username);
    r.append(" ");
    r.append(password);
    r.append(" ");
    r.append(code);
    r.append(" ");
    r.append(extra);
    proof {
        assert(r@ =~= "+login "@ + username@ + " "@ + password@ + " "@ + code@ + " "@
            + extra@);
    }
    r
}

/// The login argument as it may be echoed: username, password and code each
/// replaced by a fixed mask, so no secret reaches a log verbatim.
pub fn masked_login_command(extra: &str) -> (r: String)
    ensures
        r@ == "+login **** **** **** "@ + extra@,
{
    let r = String::from_str("+login **** **** **** ").concat(extra);
    r
}

} // verus!
