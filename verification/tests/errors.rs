use pinokio::errors::GatewayError;

#[test]
fn errors_map_to_statuses_and_messages() {
    let table = [
        (GatewayError::Unauthorized, 401, "missing or invalid token"),
        (GatewayError::QueueFull, 429, "session queue is full"),
        (GatewayError::ShuttingDown, 503, "server is shutting down"),
        (
            GatewayError::QueueTimeout,
            504,
            "timed out waiting for a session slot",
        ),
        (
            GatewayError::ChromiumStartupTimeout,
            504,
            "timed out waiting for Chromium to start",
        ),
        (
            GatewayError::ChromiumUnavailable("spawn failed: gone".to_string()),
            503,
            "failed to start Chromium: spawn failed: gone",
        ),
        (
            GatewayError::InvalidLaunchOptions("bad".to_string()),
            400,
            "invalid launch options: bad",
        ),
    ];
    for (error, status, message) in table {
        assert_eq!(error.status_code(), status);
        assert_eq!(error.message(), message);
        let response = error.into_response();
        assert_eq!(response.status, status);
        assert_eq!(response.error, message);
    }
}
