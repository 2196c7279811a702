use cron_tab::CronError;

#[test]
fn test_parse_error_display() {
    let result: Result<cron::Schedule, cron::error::Error> = "invalid".parse();
    let cron_error = result.unwrap_err();
    let error = CronError::ParseError(cron_error);
    let error_string = error.to_string();
    assert!(error_string.len() > 0);
}

#[test]
fn test_parse_error_debug() {
    let result: Result<cron::Schedule, cron::error::Error> = "invalid".parse();
    let cron_error = result.unwrap_err();
    let error = CronError::ParseError(cron_error);
    let debug_string = format!("{:?}", error);
    assert!(debug_string.contains("ParseError"));
}

#[test]
fn test_error_from_cron_error() {
    let result: Result<cron::Schedule, cron::error::Error> = "invalid".parse();
    let cron_error = result.unwrap_err();
    let error: CronError = cron_error.into();
    match error {
        CronError::ParseError(_) => {}
        CronError::DurationOutOfRange => {}
        CronError::Unknown => {}
    }
}

#[test]
fn error_messages_name_the_error() {
    let result: Result<cron::Schedule, cron::error::Error> = "invalid".parse();
    let error = CronError::ParseError(result.unwrap_err());
    assert!(error.to_string().starts_with("Invalid cron expression: "));
    assert_eq!(CronError::DurationOutOfRange.to_string(), "Duration out of range");
    assert_eq!(CronError::Unknown.to_string(), "Unknown error");
}

#[test]
fn from_conversion_gives_parse_error() {
    let result: Result<cron::Schedule, cron::error::Error> = "* * *".parse();
    let error = CronError::from(result.unwrap_err());
    assert!(matches!(error, CronError::ParseError(_)));
}

#[test]
fn parse_error_text_carries_the_parser_message() {
    let first: Result<cron::Schedule, cron::error::Error> = "invalid".parse();
    let second: Result<cron::Schedule, cron::error::Error> = "invalid".parse();
    let message = second.unwrap_err().to_string();
    assert!(!message.is_empty());
    let error = CronError::ParseError(first.unwrap_err());
    assert_eq!(error.to_string(), format!("Invalid cron expression: {}", message));
}
