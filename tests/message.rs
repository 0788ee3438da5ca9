use mcnotify::notifier::command_executor::CommandExecutor;
use mcnotify::notifier::ifttt_webhook::IFTTTWebhook;
use mcnotify::notifier::stdout_printer::StdoutPrinter;
use mcnotify::notifier::Message;

#[test]
fn message_truncate() {
    let message = Message::new("こんにちは、世界。").truncate(5);
    assert_eq!(message.body(), "こんにちは");
}

#[test]
fn truncate_beyond_length_keeps_everything() {
    let message = Message::new("short");
    assert_eq!(message.truncate(100).body(), "short");
    assert_eq!(message.truncate(0).body(), "");
}

#[test]
fn command_arguments_replace_placeholder() {
    let executor = CommandExecutor::new(
        "notify-send",
        vec!["-t".to_owned(), "{msg}".to_owned(), "{msg}x".to_owned()],
        true,
    );
    let args = executor.arguments_for(&Message::new("server down"));
    assert_eq!(args, vec!["-t".to_owned(), "server down".to_owned(), "{msg}x".to_owned()]);
    assert_eq!(executor.command(), "notify-send");
    assert!(executor.pipe());
}

#[test]
fn webhook_body_respects_limit() {
    let message = Message::new("abcdef");
    assert_eq!(IFTTTWebhook::new("https://example.org", Some(3)).body_for(&message), "abc");
    assert_eq!(IFTTTWebhook::new("https://example.org", None).body_for(&message), "abcdef");
    assert_eq!(IFTTTWebhook::new("https://example.org", None).endpoint(), "https://example.org");
    let _printer = StdoutPrinter::default();
    let _other = StdoutPrinter::new();
}
