use microsandbox_terminal::{
    get_window_size, set_window_size, set_window_size_result, TerminalError, WindowSize,
};

#[test]
fn test_invalid_size_zero() {
    let result = set_window_size(0, 24);
    assert!(matches!(result, Err(TerminalError::InvalidSize { cols: 0, rows: 24 })));
}

#[test]
fn test_invalid_size_too_large() {
    let result = set_window_size(2000, 24);
    assert!(matches!(result, Err(TerminalError::InvalidSize { cols: 2000, .. })));
}

#[test]
fn size_limits() {
    let largest = WindowSize { rows: 500, cols: 1000, xpixel: 0, ypixel: 0 };
    assert_eq!(set_window_size(1000, 500).unwrap(), largest);
    let smallest = WindowSize { rows: 1, cols: 1, xpixel: 0, ypixel: 0 };
    assert_eq!(set_window_size(1, 1).unwrap(), smallest);
    assert!(set_window_size(1001, 500).is_err());
    assert!(set_window_size(1000, 501).is_err());
    assert!(matches!(
        set_window_size(80, 0),
        Err(TerminalError::InvalidSize { cols: 80, rows: 0 })
    ));
}

#[test]
fn size_is_read_back() {
    let size = set_window_size(120, 40).unwrap();
    assert_eq!(get_window_size(Ok(size)).unwrap(), (120, 40));
}

#[test]
fn device_errors_are_allocation_errors() {
    assert!(set_window_size_result(Ok(())).is_ok());
    assert!(matches!(
        set_window_size_result(Err("ENOTTY".to_string())),
        Err(TerminalError::PtyAllocation(cause)) if cause == "ENOTTY"
    ));
    assert!(matches!(
        get_window_size(Err("EBADF".to_string())),
        Err(TerminalError::PtyAllocation(cause)) if cause == "EBADF"
    ));
}

#[test]
fn errors_describe_themselves() {
    let text = |s: &str| s.to_string();
    assert_eq!(
        TerminalError::PtyAllocation(text("ENXIO: No such device")).to_string(),
        "Failed to allocate PTY: ENXIO: No such device"
    );
    assert_eq!(TerminalError::SpawnFailed(text("x")).to_string(), "Failed to spawn shell: x");
    assert_eq!(TerminalError::ReadFailed(text("x")).to_string(), "Failed to read from PTY: x");
    assert_eq!(TerminalError::WriteFailed(text("x")).to_string(), "Failed to write to PTY: x");
    assert_eq!(
        TerminalError::RateLimited(10).to_string(),
        "Rate limit exceeded: 10 requests/sec allowed"
    );
    assert_eq!(
        TerminalError::RateLimited(u32::MAX).to_string(),
        "Rate limit exceeded: 4294967295 requests/sec allowed"
    );
    assert_eq!(TerminalError::NotInitialized.to_string(), "Terminal session not initialized");
    assert_eq!(TerminalError::AlreadyClosed.to_string(), "Terminal session already closed");
    assert_eq!(
        TerminalError::InvalidSize { cols: 0, rows: 65535 }.to_string(),
        "Invalid terminal size: cols=0, rows=65535"
    );
    assert_eq!(TerminalError::SignalFailed(text("x")).to_string(), "Failed to signal process: x");
    assert_eq!(TerminalError::Timeout.to_string(), "Timeout waiting for process");
}
