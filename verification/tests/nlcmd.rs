use drbot::nlcmd::{
    is_dangerous_command, urlencoded, web_search_url, AppCommand, CommandExecutor, CommandType,
    FileCommand, IntentCategory, IntentClassifier, SearchCommand, SystemCommand,
};

#[test]
fn test_url_encoding() {
    assert_eq!(urlencoded("hello world"), "hello+world");
    assert_eq!(urlencoded("test"), "test");
}

#[test]
fn test_classify_open() {
    let classifier = IntentClassifier::new();
    let intent = classifier.classify_rules("open chrome");
    assert_eq!(intent.category, IntentCategory::OpenApp);
    assert_eq!(intent.target, Some("chrome".to_string()));
}

#[test]
fn test_classify_search() {
    let classifier = IntentClassifier::new();
    let intent = classifier.classify_rules("search for rust programming");
    assert_eq!(intent.category, IntentCategory::Search);
}

#[test]
fn test_classify_system() {
    let classifier = IntentClassifier::new();
    let intent = classifier.classify_rules("take a screenshot");
    assert_eq!(intent.category, IntentCategory::SystemControl);
    assert_eq!(intent.action, "screenshot");
}

#[test]
fn test_dangerous_detection() {
    let safe = CommandType::Application(AppCommand::Open("chrome".to_string()));
    assert!(!is_dangerous_command(&safe));
    let dangerous = CommandType::System(SystemCommand::Shutdown);
    assert!(is_dangerous_command(&dangerous));
    assert!(is_dangerous_command(&CommandType::File(FileCommand::Delete("x".to_string()))));
}

#[test]
fn nlcmd_rules_and_commands() {
    let c = IntentClassifier::default();
    let i = c.classify_rules("  Launch   Visual  Studio ");
    assert_eq!(i.category, IntentCategory::OpenApp);
    assert_eq!(i.action, "launch");
    assert_eq!(i.target, Some("visual studio".to_string()));
    assert_eq!(i.confidence_percent, 90);
    assert_eq!(
        c.to_command_type(&i),
        CommandType::Application(AppCommand::Open("visual studio".to_string()))
    );
    let i = c.classify_rules("please look for cheap flights");
    assert_eq!(i.category, IntentCategory::Search);
    assert_eq!(i.target, Some("cheap flights".to_string()));
    assert_eq!(
        c.to_command_type(&i),
        CommandType::Search(SearchCommand::Web("cheap flights".to_string()))
    );
    let i = c.classify_rules("Lock the screen");
    assert_eq!(i.action, "lock");
    assert_eq!(i.confidence_percent, 85);
    assert_eq!(c.to_command_type(&i), CommandType::System(SystemCommand::Lock));
    let i = c.classify_rules("delete notes.txt");
    assert_eq!(i.category, IntentCategory::FileOperation);
    assert!(is_dangerous_command(&c.to_command_type(&i)));
    let i = c.classify_rules("What can you do?");
    assert_eq!(i.category, IntentCategory::Help);
    let i = c.classify_rules("Blorp");
    assert_eq!(i.category, IntentCategory::Unknown);
    assert_eq!(i.target, Some("blorp".to_string()));
    assert_eq!(i.confidence_percent, 30);
    assert_eq!(c.to_command_type(&i), CommandType::Custom("blorp".to_string()));
    assert_eq!(c.classify_rules("close").target, Some(String::new()));
}

#[test]
fn nlcmd_url_forms() {
    assert_eq!(urlencoded("a&b=c/é~"), "a%26b%3Dc%2F%E9~");
    assert_eq!(urlencoded("\t"), "%09");
    assert_eq!(urlencoded("☺"), "%263A");
    assert_eq!(web_search_url("rust lang"), "https://www.google.com/search?q=rust+lang");
    let _ = CommandExecutor::new();
}
