use froman::colors::{color_for, colorize};
use froman::config::Config;
use froman::errors::FromanError;
use froman::runner::{left_pad, log_lines, render_chunk, Runner};
use froman::text::substitute;
use froman::workers::{Worker, WorkerKind};

fn config() -> Config {
    Config {
        dir: String::from("/etc/conf"),
        command_template: String::from("bundle exec %s"),
        redis_url: String::from("redis://127.0.0.1/"),
        timeout: 30,
    }
}

fn worker(app: &str, command: &str) -> Worker {
    Worker {
        app: String::from(app),
        path: String::from("."),
        namespace: String::new(),
        command: String::from(command),
        kind: WorkerKind::Sidekiq,
        process: None,
        terminate_at: None,
    }
}

#[test]
fn command_round_trip() {
    let w = worker("myapp", "sidekiq -q default");
    let (program, args) = w.command_binary_and_args("bundle exec %s").unwrap();
    assert_eq!(program, "bundle");
    assert_eq!(args, vec!["exec", "sidekiq", "-q", "default"]);
}

#[test]
fn command_honors_shell_quoting() {
    let w = worker("myapp", "run 'two words'");
    let (program, args) = w.command_binary_and_args("%s").unwrap();
    assert_eq!(program, "run");
    assert_eq!(args, vec!["two words"]);
}

#[test]
fn command_of_empty_template_is_nothing() {
    let w = worker("myapp", "");
    assert!(w.command_binary_and_args("").is_none());
}

#[test]
fn command_with_non_ascii_words_is_tokenized() {
    // Non-ASCII text without backslashes passes through the parser intact.
    let w = worker("myapp", "echo café");
    let (program, args) = w.command_binary_and_args("%s").unwrap();
    assert_eq!(program, "echo");
    assert_eq!(args, vec!["café"]);
}

#[test]
fn command_with_escaped_non_ascii_is_refused() {
    // The shell-word parser drops the byte after an unrecognized backslash
    // escape and aborts re-validating the word as UTF-8, so a backslash in
    // non-ASCII text is refused before the parser ever sees it.
    let escaped = worker("myapp", "run \\é");
    assert!(escaped.command_binary_and_args("%s").is_none());
    let template = worker("myapp", "run\\x");
    assert!(template.command_binary_and_args("exéc %s").is_none());
}

#[test]
fn command_with_tab_or_newline_is_refused() {
    // The parser breaks a word at a tab, newline or carriage return but
    // never consumes it as a separator, so it would yield empty words
    // forever; such input is refused before the parser ever sees it.
    let tabbed = worker("myapp", "a\tb");
    assert!(tabbed.command_binary_and_args("%s").is_none());
    let trailing_newline = worker("myapp", "x");
    assert!(trailing_newline.command_binary_and_args("bundle exec %s\n").is_none());
    let carriage = worker("myapp", "a\rb");
    assert!(carriage.command_binary_and_args("%s").is_none());
}

#[test]
fn command_of_blank_template_is_one_empty_word() {
    // A leading separator makes the shell-word parser emit an empty first
    // word, so a blank command names the empty program rather than nothing.
    let w = worker("myapp", " ");
    let (program, args) = w.command_binary_and_args("%s").unwrap();
    assert_eq!(program, "");
    assert_eq!(args, Vec::<String>::new());
}

#[test]
fn substitute_fills_placeholder() {
    assert_eq!(substitute("bundle exec %s", "rake"), "bundle exec rake");
    assert_eq!(substitute("%s", "x"), "x");
    assert_eq!(substitute("no placeholder", "x"), "no placeholder");
    assert_eq!(substitute("%s and %s", "y"), "y and y");
    assert_eq!(substitute("", "y"), "");
}

#[test]
fn namespaced_keys() {
    let mut w = worker("myapp", "cmd");
    w.namespace = String::from("myapp");
    assert_eq!(w.namespaced("queue:default"), "myapp:queue:default");
    assert_eq!(w.namespaced("queues"), "myapp:queues");
    w.namespace = String::new();
    assert_eq!(w.namespaced("queues"), "queues");
}

#[test]
fn paths_resolve_against_config_dir() {
    let c = config();
    assert_eq!(c.path_relative_to_config_dir("/abs/dir"), "/abs/dir");
    assert_eq!(c.path_relative_to_config_dir("app"), "/etc/conf/app");
    assert_eq!(c.path_relative_to_config_dir(""), "/etc/conf/");
}

#[test]
fn colorize_wraps_in_escapes() {
    assert_eq!(colorize("hi", "1;34"), "\u{1b}[1;34mhi\u{1b}[0m");
    assert_eq!(colorize("", "0;31"), "\u{1b}[0;31m\u{1b}[0m");
}

#[test]
fn palette_cycles() {
    assert_eq!(color_for(0), "0;31");
    assert_eq!(color_for(5), "0;36");
    assert_eq!(color_for(11), "1;36");
    assert_eq!(color_for(12), "0;31");
    assert_eq!(color_for(13), "0;32");
}

#[test]
fn label_gutter_width_is_longest_name() {
    let c = config();
    let runner = Runner::new(&c);
    let workers = vec![worker("a", "x"), worker("bbb", "x"), worker("cc", "x")];
    let width = runner.get_label_size(&workers);
    assert_eq!(width, 3);
    assert_eq!(left_pad("a", width), "  a");
    assert_eq!(left_pad("bbb", width), "bbb");
    assert_eq!(left_pad("cc", width), " cc");
}

#[test]
fn log_lines_formats_each_nonblank_line() {
    let lines = log_lines("web", 3, "0;32", "  a\n\n b \n");
    assert_eq!(
        lines,
        vec![
            String::from("\u{1b}[0;32mweb\u{1b}[0m: a"),
            String::from("\u{1b}[0;32mweb\u{1b}[0m:  b"),
        ]
    );
}

#[test]
fn log_lines_of_blank_message_are_empty() {
    assert!(log_lines("web", 3, "0;32", "   \n\t ").is_empty());
    assert!(log_lines("web", 3, "0;32", "").is_empty());
}

#[test]
fn log_lines_pad_label_into_gutter() {
    let lines = log_lines("a", 3, "0;31", "STARTING\n");
    assert_eq!(lines, vec![String::from("\u{1b}[0;31m  a\u{1b}[0m: STARTING")]);
}

#[test]
fn render_chunk_strips_nul_and_decodes() {
    let lines = render_chunk("app", 4, "0;31", b"hello\x00 world\n");
    assert_eq!(lines, vec![String::from("\u{1b}[0;31m app\u{1b}[0m: hello world")]);
}

#[test]
fn render_chunk_replaces_invalid_utf8() {
    let lines = render_chunk("app", 3, "0;31", b"\xff");
    assert_eq!(lines, vec![format!("\u{1b}[0;31mapp\u{1b}[0m: \u{fffd}")]);
}

#[test]
fn render_chunk_of_padding_bytes_is_silent() {
    assert!(render_chunk("app", 3, "0;31", &[0u8; 16]).is_empty());
}

#[test]
fn backend_errors_wrap_into_froman_errors() {
    let redis_error = redis::RedisError::from((redis::ErrorKind::Io, "connection dropped"));
    let wrapped = FromanError::from(redis_error);
    assert!(matches!(wrapped, FromanError::RedisError(_)));
    let signal = FromanError::SignalError(nix::errno::Errno::EPERM);
    assert!(matches!(signal, FromanError::SignalError(_)));
}
