use snapfilething::error::AppError;

#[test]
fn error_texts() {
    let text = |e: AppError| e.message();
    assert_eq!(text(AppError::FileTooLarge(1048577)), "File too large: 1048577 bytes");
    assert_eq!(text(AppError::FileTooLarge(0)), "File too large: 0 bytes");
    assert_eq!(text(AppError::InvalidFileType("x".into())), "Invalid file type: x");
    assert_eq!(text(AppError::FileNotFound("a.png".into())), "File not found: a.png");
    assert_eq!(text(AppError::BadRequest("x".into())), "Bad request: x");
    assert_eq!(text(AppError::NotFound("x".into())), "Not found: x");
    assert_eq!(text(AppError::Conflict("x".into())), "Bad request: x");
    assert_eq!(text(AppError::InvalidOperation("x".into())), "Bad request: x");
    assert_eq!(text(AppError::Io("x".into())), "IO error: x");
    assert_eq!(text(AppError::ImageProcessing("x".into())), "Image processing error: x");
    assert_eq!(text(AppError::QoiEncoding("x".into())), "QOI encoding error: x");
    assert_eq!(text(AppError::Multipart("x".into())), "Multipart error: x");
    assert_eq!(text(AppError::AuthenticationRequired), "Authentication required");
    assert_eq!(text(AppError::InvalidCredentials), "Invalid credentials");
    assert_eq!(text(AppError::Unauthorized("x".into())), "Unauthorized: x");
    assert_eq!(text(AppError::RateLimited), "Rate limit exceeded");
    assert_eq!(text(AppError::Internal("".into())), "Internal server error: ");
}

#[test]
fn errors_as_the_client_sees_them() {
    let cases: Vec<(AppError, u16, &str, &str)> = vec![
        (AppError::FileTooLarge(9), 413, "File too large", "File too large: 9 bytes"),
        (AppError::InvalidFileType("x".into()), 400, "Invalid file type", "Invalid file type: x"),
        (AppError::FileNotFound("x".into()), 404, "File not found", "File not found: x"),
        (AppError::BadRequest("x".into()), 400, "Bad request", "Bad request: x"),
        (AppError::NotFound("x".into()), 404, "Not found", "Not found: x"),
        (AppError::Conflict("x".into()), 400, "Bad request", "Bad request: x"),
        (AppError::InvalidOperation("x".into()), 400, "Bad request", "Bad request: x"),
        (AppError::Io("secret".into()), 500, "Internal server error", "An unexpected error occurred"),
        (
            AppError::ImageProcessing("secret".into()),
            500,
            "Internal server error",
            "An unexpected error occurred",
        ),
        (
            AppError::QoiEncoding("secret".into()),
            500,
            "Internal server error",
            "An unexpected error occurred",
        ),
        (
            AppError::Multipart("secret".into()),
            500,
            "Internal server error",
            "An unexpected error occurred",
        ),
        (
            AppError::AuthenticationRequired,
            401,
            "Authentication required",
            "Please provide valid credentials",
        ),
        (
            AppError::InvalidCredentials,
            401,
            "Invalid credentials",
            "Username or password is incorrect",
        ),
        (AppError::Unauthorized("x".into()), 401, "Unauthorized", "Unauthorized: x"),
        (AppError::RateLimited, 429, "Too many requests", "Rate limit exceeded"),
        (AppError::Internal("x".into()), 500, "Internal server error", "Internal server error: x"),
    ];
    for (error, status, label, message) in cases {
        let challenge = matches!(error, AppError::AuthenticationRequired);
        let reply = error.error_response();
        assert_eq!(reply.status, status);
        assert_eq!(reply.body.error, label);
        assert_eq!(reply.body.message, message);
        assert_eq!(reply.challenge, challenge);
    }
}
