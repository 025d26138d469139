use steam_totp::command::{find_default_steamcmd, login_command, masked_login_command};

#[test]
fn default_path_windows() {
    assert_eq!(find_default_steamcmd(true, false), "C:\\steamcmd\\steamcmd.exe");
    assert_eq!(find_default_steamcmd(true, true), "C:\\steamcmd\\steamcmd.exe");
}

#[test]
fn default_path_unix() {
    assert_eq!(find_default_steamcmd(false, true), "/home/steam/steamcmd/steamcmd.sh");
    assert_eq!(find_default_steamcmd(false, false), "/home/steam/steamcmd");
}

#[test]
fn login_command_interpolates_in_order() {
    let cmd = login_command("alice", "hunter2", "559VY", "+quit");
    assert_eq!(cmd, "+login alice hunter2 559VY +quit");
}

#[test]
fn masked_command_hides_every_credential() {
    let masked = masked_login_command("+quit");
    assert_eq!(masked, "+login **** **** **** +quit");
    assert!(!masked.contains("alice"));
    assert!(!masked.contains("hunter2"));
}
