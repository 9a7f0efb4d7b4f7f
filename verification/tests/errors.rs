use turnstile::error::AppError;

#[test]
fn errors_map_to_status_and_message() {
    assert_eq!(AppError::BadRequest("missing Origin header".into()).response_parts(), (400, "missing Origin header".to_string()));
    assert_eq!(
        AppError::OriginNotAllowed("https://evil.com".into()).response_parts(),
        (403, "origin \"https://evil.com\" is not allowed".to_string())
    );
    assert_eq!(AppError::ChallengeInvalid.response_parts(), (400, "challenge expired or not found".to_string()));
    assert_eq!(AppError::ChallengeAlreadyUsed.response_parts(), (409, "challenge already used".to_string()));
    assert_eq!(AppError::VerifyFailed.response_parts(), (403, "verification failed".to_string()));
    assert_eq!(AppError::Redis.response_parts(), (503, "verification temporarily unavailable".to_string()));
    assert_eq!(AppError::Internal.response_parts(), (500, "internal error".to_string()));
    assert_eq!(AppError::internal("boom"), AppError::Internal);
}
