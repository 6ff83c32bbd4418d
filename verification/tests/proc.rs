use runa::engine::proc::{bat_binary, bat_binary_among, command_exists, fd_binary, fd_binary_among, ToolError};

fn fd_available() -> bool {
    command_exists("fd") || command_exists("fd-find")
}

fn bat_available() -> bool {
    command_exists("bat")
}

#[test]
fn finds_fd_binary_if_available() -> Result<(), Box<dyn std::error::Error>> {
    if !fd_available() {
        return Ok(());
    }
    let bin = fd_binary().map_err(|e| e.message())?;
    assert!(bin == "fd" || bin == "fd-find");
    assert!(command_exists(bin));
    Ok(())
}

#[test]
fn finds_bat_binary_if_available() -> Result<(), Box<dyn std::error::Error>> {
    if !bat_available() {
        return Ok(());
    }
    let bin = bat_binary().map_err(|e| e.message())?;
    assert_eq!(bin, "bat");
    assert!(command_exists(bin));
    Ok(())
}

#[test]
fn fd_prefers_fd_over_fd_find() {
    assert_eq!(fd_binary_among(true, true), Ok("fd"));
    assert_eq!(fd_binary_among(true, false), Ok("fd"));
    assert_eq!(fd_binary_among(false, true), Ok("fd-find"));
    assert_eq!(fd_binary_among(false, false), Err(ToolError::FdNotFound));
}

#[test]
fn bat_missing_is_an_error() {
    assert_eq!(bat_binary_among(true), Ok("bat"));
    assert_eq!(bat_binary_among(false), Err(ToolError::BatNotFound));
    assert_eq!(ToolError::BatNotFound.message(), "bat was not found in PATH");
}

#[test]
fn fd_binary_matches_the_path() {
    let found = fd_available();
    assert_eq!(fd_binary().is_ok(), found);
    assert_eq!(bat_binary().is_ok(), bat_available());
}
